//! A world for a search to run in, as a mathematical object: an attribute cache
//! that keeps what is put into it, and web services that answer one request always
//! in the same way.

use vstd::prelude::*;
use crate::json::Json;
use crate::musicbrainz::{Artists, RecordingPage};
use crate::protocol::{Answer, Asking, Move, Service};

verus! {

/// An entry of the attribute cache.
pub enum Entry {
    Text(Seq<char>),
    List(Seq<Seq<char>>),
    Flag(bool),
    Value(Json),
}

/// The attribute cache, the answers of the web services and of the helpers, and the
/// requests that went out to web services so far.
pub struct World {
    pub entries: Map<Seq<char>, Entry>,
    pub pages: spec_fn(Service, Seq<char>) -> Result<Seq<char>, Seq<char>>,
    pub artists: spec_fn(Seq<char>) -> Artists,
    pub recordings: spec_fn(Seq<char>) -> Option<RecordingPage>,
    pub splits: spec_fn(Seq<char>) -> Seq<Seq<char>>,
    pub names: spec_fn(Seq<char>, bool, Option<Seq<Seq<char>>>) -> Option<Seq<Seq<char>>>,
    pub cleaned: spec_fn(Seq<Seq<char>>) -> Seq<Seq<char>>,
    pub sent: Seq<Asking>,
}

impl World {
    /// The entry under a key.
    pub open spec fn entry(self, key: Seq<char>) -> Option<Entry> {
        if self.entries.dom().contains(key) {
            Some(self.entries[key])
        } else {
            None
        }
    }

    /// The string under a key.
    pub open spec fn text(self, key: Seq<char>) -> Option<Seq<char>> {
        match self.entry(key) {
            Some(Entry::Text(s)) => Some(s),
            _ => None,
        }
    }

    /// The list under a key.
    pub open spec fn list(self, key: Seq<char>) -> Option<Seq<Seq<char>>> {
        match self.entry(key) {
            Some(Entry::List(l)) => Some(l),
            _ => None,
        }
    }

    /// The flag under a key.
    pub open spec fn flag(self, key: Seq<char>) -> Option<bool> {
        match self.entry(key) {
            Some(Entry::Flag(b)) => Some(b),
            _ => None,
        }
    }

    /// The document under a key.
    pub open spec fn value(self, key: Seq<char>) -> Option<Json> {
        match self.entry(key) {
            Some(Entry::Value(v)) => Some(v),
            _ => None,
        }
    }

    /// The flag under a key is set.
    pub open spec fn flagged(self, key: Seq<char>) -> bool {
        self.flag(key) == Some(true)
    }

    /// The world with an entry put into the attribute cache.
    pub open spec fn with(self, key: Seq<char>, entry: Entry) -> World {
        World { entries: self.entries.insert(key, entry), ..self }
    }

    /// The world after a request to a web service.
    pub open spec fn having_sent(self, asking: Asking) -> World {
        World { sent: self.sent.push(asking), ..self }
    }

    /// What comes of a request.
    pub open spec fn answer(self, asking: Asking) -> Answer {
        match asking {
            Asking::ReadText(key) => Answer::Text(self.text(key)),
            Asking::ReadList(key) => Answer::List(self.list(key)),
            Asking::ReadFlag(key) => Answer::Flag(self.flag(key)),
            Asking::ReadValue(key) => Answer::Value(self.value(key)),
            Asking::Fetch(service, url) => Answer::Page((self.pages)(service, url)),
            Asking::SearchArtists(url) => Answer::Artists((self.artists)(url)),
            Asking::SearchRecordings(url) => Answer::Recordings((self.recordings)(url)),
            Asking::SplitArtist(name) => Answer::Names((self.splits)(name)),
            Asking::SplitNames(name, cache_only, separators) => Answer::List(
                (self.names)(name, cache_only, separators),
            ),
            Asking::CleanGenres(genres) => Answer::Names((self.cleaned)(genres)),
            _ => Answer::Stored(true),
        }
    }

    /// The world after a request.
    pub open spec fn after(self, asking: Asking) -> World {
        match asking {
            Asking::StoreText(key, text) => self.with(key, Entry::Text(text)),
            Asking::StoreList(key, list) => self.with(key, Entry::List(list)),
            Asking::StoreFlag(key, _) => self.with(key, Entry::Flag(true)),
            Asking::StoreValue(key, value) => self.with(key, Entry::Value(value)),
            _ => if asking.service() is Some {
                self.having_sent(asking)
            } else {
                self
            },
        }
    }
}

/// What a search comes to, and the world that it leaves, if it is done after at
/// most so many requests.
pub open spec fn played<S, T>(
    next: spec_fn(S, Answer) -> Move<S, T>,
    step: Move<S, T>,
    world: World,
    requests: nat,
) -> Option<(T, World)>
    decreases requests,
{
    match step {
        Move::Done(result) => Some((result, world)),
        Move::Ask(state, asking) => if requests == 0 {
            None
        } else {
            played(
                next,
                next(state, world.answer(asking)),
                world.after(asking),
                (requests - 1) as nat,
            )
        },
    }
}

/// A search comes to a result and leaves the world in some state.
pub open spec fn comes_to<S, T>(
    next: spec_fn(S, Answer) -> Move<S, T>,
    step: Move<S, T>,
    world: World,
    outcome: (T, World),
) -> bool {
    exists|requests: nat| #[trigger] played(next, step, world, requests) == Some(outcome)
}

/// More requests than needed make no difference.
proof fn lemma_played_longer<S, T>(
    next: spec_fn(S, Answer) -> Move<S, T>,
    step: Move<S, T>,
    world: World,
    requests: nat,
    more: nat,
)
    requires
        played(next, step, world, requests) is Some,
        more >= requests,
    ensures
        played(next, step, world, more) == played(next, step, world, requests),
    decreases requests,
{
    match step {
        Move::Done(_) => {},
        Move::Ask(state, asking) => {
            lemma_played_longer(
                next,
                next(state, world.answer(asking)),
                world.after(asking),
                (requests - 1) as nat,
                (more - 1) as nat,
            );
        },
    }
}

/// In a given world a search comes to one result only, and leaves one state.
pub proof fn law_outcome_is_unique<S, T>(
    next: spec_fn(S, Answer) -> Move<S, T>,
    step: Move<S, T>,
    world: World,
    first: (T, World),
    second: (T, World),
)
    requires
        comes_to(next, step, world, first),
        comes_to(next, step, world, second),
    ensures
        first == second,
{
    let n = choose|n: nat| #[trigger] played(next, step, world, n) == Some(first);
    let m = choose|m: nat| #[trigger] played(next, step, world, m) == Some(second);
    if n <= m {
        lemma_played_longer(next, step, world, n, m);
    } else {
        lemma_played_longer(next, step, world, m, n);
    }
}

/// A search that is done has come to its result.
pub proof fn lemma_done<S, T>(next: spec_fn(S, Answer) -> Move<S, T>, result: T, world: World)
    ensures
        comes_to(next, Move::Done(result), world, (result, world)),
{
    assert(played(next, Move::Done(result), world, 0) == Some((result, world)));
}

/// A search that asks comes to what it comes to with the answer.
pub proof fn lemma_ask<S, T>(
    next: spec_fn(S, Answer) -> Move<S, T>,
    state: S,
    asking: Asking,
    world: World,
    outcome: (T, World),
)
    requires
        comes_to(next, next(state, world.answer(asking)), world.after(asking), outcome),
    ensures
        comes_to(next, Move::Ask(state, asking), world, outcome),
{
    let n = choose|n: nat| #[trigger]
        played(next, next(state, world.answer(asking)), world.after(asking), n) == Some(outcome);
    assert(played(next, Move::Ask(state, asking), world, n + 1) == Some(outcome));
}

/// A search inside another one: the outer one comes to what it comes to with the
/// result of the inner one.
pub proof fn lemma_within<S, T, P, Q>(
    inner: spec_fn(S, Answer) -> Move<S, T>,
    outer: spec_fn(P, Answer) -> Move<P, Q>,
    wrap: spec_fn(Move<S, T>) -> Move<P, Q>,
    lift: spec_fn(S) -> P,
    step: Move<S, T>,
    world: World,
    between: (T, World),
    outcome: (Q, World),
)
    requires
        forall|s: S, asking: Asking| #[trigger]
            wrap(Move::Ask(s, asking)) == Move::<P, Q>::Ask(lift(s), asking),
        forall|s: S, answer: Answer| #[trigger] outer(lift(s), answer) == wrap(inner(s, answer)),
        comes_to(inner, step, world, between),
        comes_to(outer, wrap(Move::Done(between.0)), between.1, outcome),
    ensures
        comes_to(outer, wrap(step), world, outcome),
{
    let n = choose|n: nat| #[trigger] played(inner, step, world, n) == Some(between);
    lemma_within_played(inner, outer, wrap, lift, step, world, n, between, outcome);
}

proof fn lemma_within_played<S, T, P, Q>(
    inner: spec_fn(S, Answer) -> Move<S, T>,
    outer: spec_fn(P, Answer) -> Move<P, Q>,
    wrap: spec_fn(Move<S, T>) -> Move<P, Q>,
    lift: spec_fn(S) -> P,
    step: Move<S, T>,
    world: World,
    requests: nat,
    between: (T, World),
    outcome: (Q, World),
)
    requires
        forall|s: S, asking: Asking| #[trigger]
            wrap(Move::Ask(s, asking)) == Move::<P, Q>::Ask(lift(s), asking),
        forall|s: S, answer: Answer| #[trigger] outer(lift(s), answer) == wrap(inner(s, answer)),
        played(inner, step, world, requests) == Some(between),
        comes_to(outer, wrap(Move::Done(between.0)), between.1, outcome),
    ensures
        comes_to(outer, wrap(step), world, outcome),
    decreases requests,
{
    match step {
        Move::Done(_) => {},
        Move::Ask(state, asking) => {
            lemma_within_played(
                inner,
                outer,
                wrap,
                lift,
                inner(state, world.answer(asking)),
                world.after(asking),
                (requests - 1) as nat,
                between,
                outcome,
            );
            assert(wrap(Move::Ask(state, asking)) == Move::<P, Q>::Ask(lift(state), asking));
            assert(outer(lift(state), world.answer(asking)) == wrap(
                inner(state, world.answer(asking)),
            ));
            lemma_ask(outer, lift(state), asking, world, outcome);
        },
    }
}

/// Where a search stands after some answers, whatever these are and whatever comes with
/// them.
pub open spec fn driven<S, T, A>(
    next: spec_fn(S, A) -> Move<S, T>,
    step: Move<S, T>,
    answers: Seq<A>,
) -> Move<S, T>
    decreases answers.len(),
{
    match step {
        Move::Done(_) => step,
        Move::Ask(state, _) => if answers.len() == 0 {
            step
        } else {
            driven(next, next(state, answers[0]), answers.drop_first())
        },
    }
}

/// What holds of the first step of a search, and of every step after one of which it
/// holds, holds wherever the search comes to stand.
pub proof fn lemma_driven<S, T, A>(
    next: spec_fn(S, A) -> Move<S, T>,
    step: Move<S, T>,
    answers: Seq<A>,
    holds: spec_fn(Move<S, T>) -> bool,
)
    requires
        holds(step),
        forall|s: S, asking: Asking, answer: A| #[trigger]
            holds(Move::Ask(s, asking)) ==> holds(#[trigger] next(s, answer)),
    ensures
        holds(driven(next, step, answers)),
    decreases answers.len(),
{
    match step {
        Move::Done(_) => {},
        Move::Ask(state, asking) => {
            if answers.len() > 0 {
                assert(holds(Move::Ask(state, asking)) ==> holds(next(state, answers[0])));
                lemma_driven(next, next(state, answers[0]), answers.drop_first(), holds);
            }
        },
    }
}

} // verus!
