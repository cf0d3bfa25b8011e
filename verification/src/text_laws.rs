//! What the operations on texts come to.

use vstd::prelude::*;
use crate::text::{
    comes_before, contains_text, decimal, law_order_of_texts, occurs, occurs_at, precedes,
    replace_char, replaced, to_decimal,
};

verus! {

/// One text stands somewhere in another.
pub open spec fn within(part: Seq<char>, whole: Seq<char>) -> bool {
    exists|before: Seq<char>, after: Seq<char>| whole == #[trigger] (before + part + after)
}

/// To occur in a text is to stand somewhere in it.
pub proof fn lemma_within(whole: Seq<char>, part: Seq<char>)
    ensures
        occurs(whole, part) <==> within(part, whole),
{
    if occurs(whole, part) {
        let at = choose|at: int| occurs_at(whole, part, at);
        let before = whole.take(at);
        let after = whole.skip(at + part.len());
        assert(whole =~= before + whole.subrange(at, at + part.len()) + after);
        assert(whole == before + part + after);
    }
    if within(part, whole) {
        let (before, after) = choose|before: Seq<char>, after: Seq<char>|
            whole == #[trigger] (before + part + after);
        let at = before.len() as int;
        assert(whole.subrange(at, at + part.len()) =~= part);
        assert(occurs_at(whole, part, at));
    }
}

/// A text contains another one if it is that text with something before and after it, or
/// nothing.
pub proof fn law_containing(hay: &str, needle: &str, r: bool)
    requires
        call_ensures(contains_text, (hay, needle), r),
    ensures
        r <==> within(needle@, hay@),
{
    lemma_within(hay@, needle@);
}

/// A text precedes another one if it stands before it in the order of code points.
pub proof fn law_preceding(a: &str, b: &str, r: bool)
    requires
        call_ensures(precedes, (a, b), r),
    ensures
        r <==> comes_before(a@, b@),
{
    law_order_of_texts(a@, b@);
}

/// Replacing goes character by character.
pub proof fn lemma_replaced_add(a: Seq<char>, b: Seq<char>, from: char, to: Seq<char>)
    ensures
        replaced(a + b, from, to) == replaced(a, from, to) + replaced(b, from, to),
    decreases b.len(),
{
    if b.len() == 0 {
        assert(a + b =~= a);
        assert(replaced(a, from, to) + replaced(b, from, to) =~= replaced(a, from, to));
    } else {
        lemma_replaced_add(a, b.drop_last(), from, to);
        assert((a + b).drop_last() =~= a + b.drop_last());
        assert(replaced(a + b, from, to) =~= replaced(a, from, to) + replaced(b, from, to));
    }
}

/// What replacing does to a single character.
pub proof fn lemma_replaced_one(c: char, from: char, to: Seq<char>)
    ensures
        replaced(seq![c], from, to) == if c == from {
            to
        } else {
            seq![c]
        },
{
    reveal_with_fuel(replaced, 2);
    assert(seq![c].drop_last() =~= Seq::empty());
    if c == from {
        assert(replaced(seq![c], from, to) =~= to);
    } else {
        assert(replaced(seq![c], from, to) =~= seq![c]);
    }
}

/// Replacing a character goes character by character: the character becomes the text, and
/// any other one stays.
pub proof fn law_replacing(
    a: &str,
    b: &str,
    whole: &str,
    from: char,
    to: &str,
    of_a: String,
    of_b: String,
    of_whole: String,
)
    requires
        whole@ == a@ + b@,
        call_ensures(replace_char, (a, from, to), of_a),
        call_ensures(replace_char, (b, from, to), of_b),
        call_ensures(replace_char, (whole, from, to), of_whole),
    ensures
        of_whole@ == of_a@ + of_b@,
        a@.len() == 0 ==> of_a@.len() == 0,
        a@.len() == 1 && a@[0] == from ==> of_a@ == to@,
        a@.len() == 1 && a@[0] != from ==> of_a@ == a@,
{
    lemma_replaced_add(a@, b@, from, to@);
    if a@.len() == 1 {
        assert(a@ =~= seq![a@[0]]);
        lemma_replaced_one(a@[0], from, to@);
    }
}

/// The number that decimal digits stand for.
pub open spec fn number_of(digits: Seq<char>) -> int
    decreases digits.len(),
{
    if digits.len() == 0 {
        0
    } else {
        10 * number_of(digits.drop_last()) + (digits.last() as int - 0x30)
    }
}

proof fn lemma_decimal(n: nat)
    ensures
        number_of(decimal(n)) == n,
        decimal(n).len() > 0,
        n > 0 ==> decimal(n)[0] != '0',
        forall|i: int| 0 <= i < decimal(n).len() ==> '0' <= #[trigger] decimal(n)[i] <= '9',
    decreases n,
{
    if n < 10 {
        let one = decimal(n);
        assert(one.drop_last() =~= Seq::empty());
        reveal_with_fuel(number_of, 2);
    } else {
        lemma_decimal(n / 10);
        let front = decimal(n / 10);
        assert(decimal(n).drop_last() =~= front);
        assert forall|i: int| 0 <= i < decimal(n).len() implies '0' <= #[trigger] decimal(n)[i] <= '9' by {
            if i < front.len() {
                assert(decimal(n)[i] == front[i]);
            }
        }
        assert(decimal(n)[0] == front[0]);
    }
}

/// A number in decimal notation reads back as that number, and has no zero in front.
pub proof fn law_decimal_notation(n: usize, r: String)
    requires
        call_ensures(to_decimal, (n,), r),
    ensures
        number_of(r@) == n,
        r@.len() > 0,
        n > 0 ==> r@[0] != '0',
        forall|i: int| 0 <= i < r@.len() ==> '0' <= #[trigger] r@[i] <= '9',
{
    lemma_decimal(n as nat);
}

} // verus!
