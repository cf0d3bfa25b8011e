//! Ordering things best first.

use vstd::prelude::*;

verus! {

/// Something that has a grade to be ordered by.
pub trait Graded: Sized {
    /// The grade that decides the place.
    spec fn rank(&self) -> i32;

    /// Looks the grade up.
    fn rank_of(&self) -> (r: i32)
        ensures
            r == self.rank(),
    ;
}

/// The things of one grade, in order.
pub open spec fn of_rank<T: Graded>(s: Seq<T>, rank: i32) -> Seq<T> {
    s.filter(|x: T| x.rank() == rank)
}

/// No thing stands behind one of a lower grade.
pub open spec fn best_first<T: Graded>(s: Seq<T>) -> bool {
    forall|i: int, j: int| 0 <= i < j < s.len() ==> (#[trigger] s[i]).rank() >= (#[trigger] s[j]).rank()
}

/// `sorted` is `s` with the best first, and things of one grade in the order that
/// they had in `s`.
pub open spec fn ranked<T: Graded>(s: Seq<T>, sorted: Seq<T>) -> bool {
    &&& best_first(sorted)
    &&& forall|k: i32| #[trigger] of_rank(sorted, k) == of_rank(s, k)
}

proof fn lemma_of_rank_add<T: Graded>(a: Seq<T>, b: Seq<T>, k: i32)
    ensures
        of_rank(a + b, k) == of_rank(a, k) + of_rank(b, k),
{
    Seq::filter_distributes_over_add(a, b, |x: T| x.rank() == k);
}

proof fn lemma_of_rank_one<T: Graded>(x: T, k: i32)
    ensures
        of_rank(seq![x], k) == if x.rank() == k {
            seq![x]
        } else {
            Seq::empty()
        },
{
    reveal_with_fuel(Seq::filter, 2);
    assert(seq![x].drop_last() =~= Seq::empty());
    assert(Seq::<T>::empty().push(x) =~= seq![x]);
}

proof fn lemma_of_rank_none<T: Graded>(s: Seq<T>, k: i32)
    requires
        forall|i: int| 0 <= i < s.len() ==> (#[trigger] s[i]).rank() != k,
    ensures
        of_rank(s, k) == Seq::<T>::empty(),
    decreases s.len(),
{
    reveal(Seq::filter);
    if s.len() > 0 {
        lemma_of_rank_none(s.drop_last(), k);
    }
}

/// What comes next in the input takes its place behind its equals.
proof fn lemma_place<T: Graded>(done: Seq<T>, out: Seq<T>, x: T, at: int)
    requires
        ranked(done, out),
        0 <= at <= out.len(),
        forall|i: int| 0 <= i < at ==> (#[trigger] out[i]).rank() >= x.rank(),
        forall|i: int| at <= i < out.len() ==> (#[trigger] out[i]).rank() < x.rank(),
    ensures
        ranked(done.push(x), out.insert(at, x)),
{
    let head = out.take(at);
    let tail = out.skip(at);
    let next = out.insert(at, x);
    assert(out =~= head + tail);
    assert(next =~= head + seq![x] + tail);
    assert(done.push(x) =~= done + seq![x]);
    assert forall|k: i32| #[trigger] of_rank(next, k) == of_rank(done.push(x), k) by {
        lemma_of_rank_add(head, tail, k);
        lemma_of_rank_add(head + seq![x], tail, k);
        lemma_of_rank_add(head, seq![x], k);
        lemma_of_rank_add(done, seq![x], k);
        lemma_of_rank_one(x, k);
        assert(of_rank(out, k) == of_rank(done, k));
        if x.rank() == k {
            lemma_of_rank_none(tail, k);
            assert(of_rank(head, k) + Seq::<T>::empty() =~= of_rank(head, k));
            assert(of_rank(head, k) + seq![x] + Seq::<T>::empty() =~= of_rank(head, k) + seq![x]);
        } else {
            assert(of_rank(head, k) + Seq::<T>::empty() + of_rank(tail, k) =~= of_rank(head, k)
                + of_rank(tail, k));
            assert(of_rank(done, k) + Seq::<T>::empty() =~= of_rank(done, k));
        }
    }
    assert forall|i: int, j: int| 0 <= i < j < next.len() implies (#[trigger] next[i]).rank() >= (
    #[trigger] next[j]).rank() by {
        if j < at {
            assert(out[i].rank() >= out[j].rank());
        } else if i < at && j > at {
            assert(out[i].rank() >= out[j - 1].rank());
        } else if i > at {
            assert(out[i - 1].rank() >= out[j - 1].rank());
        } else if j == at {
            assert(out[i].rank() >= x.rank());
        } else {
            assert(out[j - 1].rank() < x.rank());
        }
    }
}

/// Puts the best first; things of one grade keep their order.
pub fn sort_best_first<T: Graded>(items: Vec<T>) -> (r: Vec<T>)
    ensures
        ranked(items@, r@),
        r.len() == items.len(),
{
    let ghost all = items@;
    let mut rest = items;
    let mut out: Vec<T> = Vec::new();
    assert(all.take(0) =~= Seq::empty());
    assert(all.skip(0) =~= all);
    while rest.len() > 0
        invariant
            rest.len() <= all.len(),
            out.len() == all.len() - rest.len(),
            rest@ == all.skip(all.len() - rest.len()),
            ranked(all.take(all.len() - rest.len()), out@),
        decreases rest.len(),
    {
        let ghost n = all.len() - rest.len();
        let x = rest.remove(0);
        let r = x.rank_of();
        let mut at: usize = 0;
        while at < out.len() && out[at].rank_of() >= r
            invariant
                at <= out.len(),
                r == x.rank(),
                forall|i: int| 0 <= i < at ==> (#[trigger] out@[i]).rank() >= x.rank(),
            decreases out.len() - at,
        {
            at = at + 1;
        }
        proof {
            assert forall|i: int| at <= i < out.len() implies (#[trigger] out@[i]).rank() < x.rank() by {
                assert(out@[at as int].rank() < x.rank());
                if i > at {
                    assert(out@[at as int].rank() >= out@[i].rank());
                }
            }
            lemma_place(all.take(n), out@, x, at as int);
            assert(all.take(n).push(x) =~= all.take(n + 1));
            assert(rest@ =~= all.skip(n + 1));
        }
        out.insert(at, x);
    }
    assert(all.take(all.len() as int) =~= all);
    out
}

proof fn lemma_of_rank_holds<T: Graded>(s: Seq<T>, x: T)
    ensures
        s.contains(x) <==> of_rank(s, x.rank()).contains(x),
{
    let p = |y: T| y.rank() == x.rank();
    if s.contains(x) {
        let i = choose|i: int| 0 <= i < s.len() && s[i] == x;
        s.lemma_filter_contains(p, i);
    }
    if s.filter(p).contains(x) {
        s.lemma_filter_contains_rev(p, x);
    }
}

/// Sorting keeps everything that was given, and adds nothing.
pub proof fn lemma_ranked_keeps<T: Graded>(s: Seq<T>, sorted: Seq<T>)
    requires
        ranked(s, sorted),
    ensures
        forall|x: T| s.contains(x) <==> sorted.contains(x),
{
    assert forall|x: T| s.contains(x) <==> sorted.contains(x) by {
        assert(of_rank(sorted, x.rank()) == of_rank(s, x.rank()));
        lemma_of_rank_holds(s, x);
        lemma_of_rank_holds(sorted, x);
    }
}

proof fn lemma_same_order<T: Graded>(a: Seq<T>, b: Seq<T>)
    requires
        best_first(a),
        best_first(b),
        forall|k: i32| #[trigger] of_rank(a, k) == of_rank(b, k),
    ensures
        a == b,
    decreases a.len(),
{
    if a.len() == 0 {
        if b.len() > 0 {
            assert(b.contains(b[0]));
            lemma_of_rank_holds(b, b[0]);
            lemma_of_rank_holds(a, b[0]);
            assert(of_rank(a, b[0].rank()) == of_rank(b, b[0].rank()));
        }
        assert(a =~= b);
    } else {
        let x = a[0];
        let k = x.rank();
        assert(a.contains(x));
        lemma_of_rank_holds(a, x);
        lemma_of_rank_holds(b, x);
        assert(of_rank(a, k) == of_rank(b, k));
        assert(b.contains(x));
        let y = b[0];
        assert(b.contains(y));
        lemma_of_rank_holds(b, y);
        lemma_of_rank_holds(a, y);
        assert(of_rank(a, y.rank()) == of_rank(b, y.rank()));
        let i = choose|i: int| 0 <= i < a.len() && a[i] == y;
        let j = choose|j: int| 0 <= j < b.len() && b[j] == x;
        assert(y.rank() == k);
        let ra = a.drop_first();
        let rb = b.drop_first();
        assert(a =~= seq![x] + ra);
        assert(b =~= seq![y] + rb);
        lemma_of_rank_add(seq![x], ra, k);
        lemma_of_rank_add(seq![y], rb, k);
        lemma_of_rank_one(x, k);
        lemma_of_rank_one(y, k);
        assert(of_rank(a, k)[0] == x);
        assert(of_rank(b, k)[0] == y);
        assert forall|q: i32| #[trigger] of_rank(ra, q) == of_rank(rb, q) by {
            lemma_of_rank_add(seq![x], ra, q);
            lemma_of_rank_add(seq![x], rb, q);
            let one = of_rank(seq![x], q);
            assert(of_rank(a, q) == of_rank(b, q));
            assert(of_rank(ra, q) =~= (one + of_rank(ra, q)).skip(one.len() as int));
            assert(of_rank(rb, q) =~= (one + of_rank(rb, q)).skip(one.len() as int));
        }
        lemma_same_order(ra, rb);
    }
}

/// The order is settled: two sortings of one sequence are the same.
pub proof fn law_ranking_is_unique<T: Graded>(s: Seq<T>, a: Seq<T>, b: Seq<T>)
    requires
        ranked(s, a),
        ranked(s, b),
    ensures
        a == b,
{
    assert forall|k: i32| #[trigger] of_rank(a, k) == of_rank(b, k) by {
        assert(of_rank(b, k) == of_rank(s, k));
    }
    lemma_same_order(a, b);
}

/// `from` says for each place of `sorted` where in `s` the thing stood: no place of `s`
/// is used twice, and of two things the better one comes first or, of equals, the one
/// that came first in `s`.
pub open spec fn taken_from<T: Graded>(s: Seq<T>, sorted: Seq<T>, from: Seq<int>) -> bool {
    &&& sorted.len() == s.len()
    &&& from.len() == s.len()
    &&& forall|k: int|
        0 <= k < from.len() ==> 0 <= #[trigger] from[k] < s.len() && sorted[k] == s[from[k]]
    &&& forall|i: int, j: int|
        0 <= i < j < from.len() ==> {
            let (a, b) = (#[trigger] from[i], #[trigger] from[j]);
            a != b && (s[a].rank() > s[b].rank() || (s[a].rank() == s[b].rank() && a < b))
        }
}

/// Where in a sorted sequence the things of a lower grade begin.
proof fn lemma_cut<T: Graded>(s: Seq<T>, rank: i32) -> (at: int)
    requires
        best_first(s),
    ensures
        0 <= at <= s.len(),
        forall|i: int| 0 <= i < at ==> (#[trigger] s[i]).rank() >= rank,
        forall|i: int| at <= i < s.len() ==> (#[trigger] s[i]).rank() < rank,
    decreases s.len(),
{
    if s.len() == 0 {
        0
    } else {
        let n = s.len() - 1;
        let rest = s.drop_last();
        if s[n].rank() >= rank {
            assert forall|i: int| 0 <= i < s.len() implies (#[trigger] s[i]).rank() >= rank by {
                if i < n {
                    assert(s[i].rank() >= s[n].rank());
                }
            }
            s.len() as int
        } else {
            assert(best_first(rest)) by {
                assert forall|i: int, j: int| 0 <= i < j < rest.len() implies (
                #[trigger] rest[i]).rank() >= (#[trigger] rest[j]).rank() by {
                    assert(s[i].rank() >= s[j].rank());
                }
            }
            let at = lemma_cut(rest, rank);
            assert forall|i: int| 0 <= i < at implies (#[trigger] s[i]).rank() >= rank by {
                assert(rest[i].rank() >= rank);
            }
            assert forall|i: int| at <= i < s.len() implies (#[trigger] s[i]).rank() < rank by {
                if i < n {
                    assert(rest[i].rank() < rank);
                }
            }
            at
        }
    }
}

proof fn lemma_some_ranking<T: Graded>(s: Seq<T>) -> (r: (Seq<T>, Seq<int>))
    ensures
        ranked(s, r.0),
        taken_from(s, r.0, r.1),
    decreases s.len(),
{
    if s.len() == 0 {
        (s, Seq::empty())
    } else {
        let done = s.drop_last();
        let x = s.last();
        let (out, from) = lemma_some_ranking(done);
        let at = lemma_cut(out, x.rank());
        lemma_place(done, out, x, at);
        assert(done.push(x) =~= s);
        let next = out.insert(at, x);
        let places = from.insert(at, done.len() as int);
        assert forall|k: int| 0 <= k < places.len() implies 0 <= #[trigger] places[k] < s.len()
            && next[k] == s[places[k]] by {
            if k < at {
                assert(places[k] == from[k]);
            } else if k > at {
                assert(places[k] == from[k - 1]);
            }
        }
        assert forall|i: int, j: int| 0 <= i < j < places.len() implies {
            let (a, b) = (#[trigger] places[i], #[trigger] places[j]);
            a != b && (s[a].rank() > s[b].rank() || (s[a].rank() == s[b].rank() && a < b))
        } by {
            if i < at {
                assert(places[i] == from[i]);
                assert(out[i].rank() >= x.rank());
            } else if i > at {
                assert(places[i] == from[i - 1]);
            }
            if j < at {
                assert(places[j] == from[j]);
            } else if j > at {
                assert(places[j] == from[j - 1]);
                assert(out[j - 1].rank() < x.rank());
            }
        }
        assert(taken_from(s, next, places));
        (next, places)
    }
}

/// Everything in a sorted sequence has its place in the sequence that was sorted.
pub proof fn lemma_taken_from<T: Graded>(s: Seq<T>, sorted: Seq<T>)
    requires
        ranked(s, sorted),
    ensures
        exists|from: Seq<int>| #[trigger] taken_from(s, sorted, from),
{
    let (other, from) = lemma_some_ranking(s);
    law_ranking_is_unique(s, sorted, other);
    assert(taken_from(s, sorted, from));
}

/// Sorting moves things about and does nothing else: there is a place in the input for each
/// place of the outcome, no two alike, and of two things the one with the higher grade comes
/// first or, of equals, the one that came first.
pub proof fn law_sorted<T: Graded>(items: Vec<T>, r: Vec<T>)
    requires
        call_ensures(sort_best_first::<T>, (items,), r),
    ensures
        r.len() == items.len(),
        exists|from: Seq<int>|
            {
                &&& #[trigger] from.len() == items.len()
                &&& forall|k: int|
                    0 <= k < from.len() ==> 0 <= #[trigger] from[k] < items.len() && r@[k]
                        == items@[from[k]]
                &&& forall|i: int, j: int|
                    0 <= i < j < from.len() ==> {
                        &&& #[trigger] from[i] != #[trigger] from[j]
                        &&& r@[i].rank() >= r@[j].rank()
                        &&& r@[i].rank() == r@[j].rank() ==> from[i] < from[j]
                    }
            },
{
    lemma_taken_from(items@, r@);
    let from = choose|from: Seq<int>| #[trigger] taken_from(items@, r@, from);
    assert(from.len() == items.len());
}

} // verus!
