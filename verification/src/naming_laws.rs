//! When names match, and what bringing them into the form for comparison takes away.

use vstd::prelude::*;
use crate::naming::{
    all_plain, artist_names_match, close_enough, comparison_form, is_common, is_mbid, joined,
    normalize_artist_name_for_comparison, normalize_ascii_name, normalized, resemblance,
    sanitize_artist_name_for_search, scanned, telling, transliterated, words,
};
use crate::text::texts;
use crate::text_laws::{lemma_replaced_add, lemma_replaced_one};

verus! {

/// Two names are alike: in the form for comparison they are equal, or their Jaro-Winkler
/// similarity is 0.9 or more. The number is given by its bits.
pub open spec fn alike(a: Seq<char>, b: Seq<char>) -> bool {
    normalized(a) == normalized(b) || resemblance(normalized(a), normalized(b))
        >= 0x3fec_cccc_cccc_cccdu64
}

/// Names match if, and only if, the name that was searched for is like the name of the
/// artist or like one of the aliases. That one name occurs in the other is not enough.
pub proof fn law_names_match_only_if_alike(
    query: &str,
    name: &str,
    aliases: Option<&Vec<String>>,
    r: bool,
)
    requires
        call_ensures(artist_names_match, (query, name, aliases), r),
    ensures
        alike(query@, name@) ==> r,
        forall|i: int|
            aliases is Some && 0 <= i < aliases->0@.len() && alike(
                query@,
                (#[trigger] aliases->0@[i])@,
            ) ==> r,
        r && !alike(query@, name@) ==> aliases is Some && exists|i: int|
            0 <= i < aliases->0@.len() && alike(query@, (#[trigger] aliases->0@[i])@),
{
    if let Some(list) = aliases {
        let all = texts(list@);
        assert forall|i: int| 0 <= i < list@.len() && alike(query@, (#[trigger] list@[i])@) implies r by {
            assert(all[i] == list@[i]@);
        }
        if r && !alike(query@, name@) {
            let i = choose|i: int| 0 <= i < all.len() && alike(query@, #[trigger] all[i]);
            assert(alike(query@, list@[i]@));
        }
    }
}

/// Where the normalized name differs from that of the artist and of every alias, and
/// resembles none of them by 0.9 or more, the names do not match.
pub proof fn law_names_apart_do_not_match(
    query: &str,
    name: &str,
    aliases: Option<&Vec<String>>,
    normal_query: String,
    normal_name: String,
    r: bool,
)
    requires
        call_ensures(artist_names_match, (query, name, aliases), r),
        call_ensures(normalize_artist_name_for_comparison, (query,), normal_query),
        call_ensures(normalize_artist_name_for_comparison, (name,), normal_name),
        normal_query@ != normal_name@,
        resemblance(normal_query@, normal_name@) < 0x3fec_cccc_cccc_cccdu64,
        aliases matches Some(list) ==> forall|i: int|
            0 <= i < list@.len() ==> {
                &&& normal_query@ != normalized((#[trigger] list@[i])@)
                &&& resemblance(normal_query@, normalized(list@[i]@)) < 0x3fec_cccc_cccc_cccdu64
            },
    ensures
        !r,
{
    law_names_match_only_if_alike(query, name, aliases, r);
}

/// A resemblance suffices from 0.9 on, and equal names always do.
pub proof fn law_threshold(equal: bool, bits: u64, r: bool)
    requires
        call_ensures(close_enough, (equal, bits), r),
    ensures
        r <==> equal || bits >= 0x3fec_cccc_cccc_cccdu64,
{
}

/// Normalizing a name is bringing its transliteration into the form for comparison.
pub proof fn law_normal_form(name: &str, ascii: &str, of_name: String, of_ascii: String)
    requires
        ascii@ == transliterated(name@),
        call_ensures(normalize_artist_name_for_comparison, (name,), of_name),
        call_ensures(normalize_ascii_name, (ascii,), of_ascii),
    ensures
        of_name@ == of_ascii@,
        of_name@ == normalized(name@),
{
}

proof fn lemma_scan_same_tail(a: Seq<char>, b: Seq<char>, tail: Seq<char>)
    requires
        scanned(a) == scanned(b),
    ensures
        scanned(a + tail) == scanned(b + tail),
    decreases tail.len(),
{
    if tail.len() == 0 {
        assert(a + tail =~= a);
        assert(b + tail =~= b);
    } else {
        lemma_scan_same_tail(a, b, tail.drop_last());
        assert((a + tail).drop_last() =~= a + tail.drop_last());
        assert((b + tail).drop_last() =~= b + tail.drop_last());
    }
}

/// A character that is neither a letter nor a digit nor white space makes no difference,
/// wherever it stands: it does not even part two words.
pub proof fn law_special_characters_fall_out(a: Seq<char>, c: char, b: Seq<char>)
    requires
        !('a' <= c <= 'z'),
        !('A' <= c <= 'Z'),
        !('0' <= c <= '9'),
        c != ' ',
        !('\t' <= c <= '\r'),
    ensures
        comparison_form(a.push(c) + b) == comparison_form(a + b),
{
    assert(a.push(c).drop_last() =~= a);
    lemma_scan_same_tail(a.push(c), a, b);
}

/// A capital letter counts as the small one.
pub proof fn law_capitals_make_no_difference(a: Seq<char>, b: Seq<char>)
    requires
        a.len() == b.len(),
        forall|i: int|
            0 <= i < a.len() ==> #[trigger] a[i] == b[i] || ('A' <= a[i] <= 'Z' && b[i] as int
                == a[i] as int + 32),
    ensures
        comparison_form(a) == comparison_form(b),
{
    lemma_scan_capitals(a, b);
}

proof fn lemma_scan_capitals(a: Seq<char>, b: Seq<char>)
    requires
        a.len() == b.len(),
        forall|i: int|
            0 <= i < a.len() ==> #[trigger] a[i] == b[i] || ('A' <= a[i] <= 'Z' && b[i] as int
                == a[i] as int + 32),
    ensures
        scanned(a) == scanned(b),
    decreases a.len(),
{
    if a.len() > 0 {
        lemma_scan_capitals(a.drop_last(), b.drop_last());
        let n = a.len() - 1;
        assert(a[n] == b[n] || ('A' <= a[n] <= 'Z' && b[n] as int == a[n] as int + 32));
    }
}

/// White space of any kind and length counts as one space, and none counts at either end
/// of a name.
pub proof fn law_white_space(a: Seq<char>, c: char, d: char, b: Seq<char>)
    requires
        c == ' ' || '\t' <= c <= '\r',
        d == ' ' || '\t' <= d <= '\r',
    ensures
        comparison_form(a.push(c) + b) == comparison_form(a.push(' ') + b),
        comparison_form(a.push(c).push(d) + b) == comparison_form(a.push(' ') + b),
        comparison_form(seq![c] + b) == comparison_form(b),
        comparison_form(a.push(c)) == comparison_form(a),
{
    let space = a.push(' ');
    assert(a.push(c).drop_last() =~= a);
    assert(space.drop_last() =~= a);
    assert(a.push(c).push(d).drop_last() =~= a.push(c));
    assert(a.push(c).push(d).last() == d);
    assert(scanned(a.push(c)).1.len() == 0);
    assert(scanned(a.push(c).push(d)) == scanned(a.push(c)));
    lemma_scan_same_tail(a.push(c), space, b);
    lemma_scan_same_tail(a.push(c).push(d), space, b);
    let none = Seq::<char>::empty();
    assert(seq![c].drop_last() =~= none);
    lemma_scan_same_tail(seq![c], none, b);
    assert(none + b =~= b);
    assert(words(a.push(c)) == words(a));
}

/// Words with one space between each two.
pub open spec fn spaced(list: Seq<Seq<char>>) -> Seq<char>
    decreases list.len(),
{
    if list.len() == 0 {
        Seq::empty()
    } else if list.len() == 1 {
        list[0]
    } else {
        spaced(list.drop_last()).push(' ') + list.last()
    }
}

/// The word "the" or the word "and".
pub open spec fn is_the_or_and(word: Seq<char>) -> bool {
    word == seq!['t', 'h', 'e'] || word == seq!['a', 'n', 'd']
}

/// Words one after another, without each "the" and "and".
pub open spec fn run_together(list: Seq<Seq<char>>) -> Seq<char>
    decreases list.len(),
{
    if list.len() == 0 {
        Seq::empty()
    } else if is_the_or_and(list.last()) {
        run_together(list.drop_last())
    } else {
        run_together(list.drop_last()) + list.last()
    }
}

proof fn lemma_scan_plain(s: Seq<char>, w: Seq<char>)
    requires
        all_plain(w),
    ensures
        scanned(s + w) == (scanned(s).0, scanned(s).1 + w),
    decreases w.len(),
{
    if w.len() == 0 {
        assert(s + w =~= s);
        assert(scanned(s).1 + w =~= scanned(s).1);
    } else {
        lemma_scan_plain(s, w.drop_last());
        assert((s + w).drop_last() =~= s + w.drop_last());
        let c = w[w.len() - 1];
        assert(crate::naming::is_plain(c));
        assert((scanned(s).1 + w.drop_last()).push(w.last()) =~= scanned(s).1 + w);
    }
}

proof fn lemma_scan_spaced(list: Seq<Seq<char>>)
    requires
        list.len() > 0,
        forall|i: int| 0 <= i < list.len() ==> (#[trigger] list[i]).len() > 0 && all_plain(list[i]),
    ensures
        scanned(spaced(list)) == (list.drop_last(), list.last()),
    decreases list.len(),
{
    let w = list[list.len() - 1];
    if list.len() == 1 {
        lemma_scan_plain(Seq::empty(), w);
        assert(Seq::<char>::empty() + w =~= w);
        assert(list.drop_last() =~= Seq::empty());
    } else {
        let earlier = list.drop_last();
        lemma_scan_spaced(earlier);
        assert(earlier.last().len() > 0);
        let head = spaced(earlier);
        assert(head.push(' ').drop_last() =~= head);
        assert(earlier.drop_last().push(earlier.last()) =~= earlier);
        lemma_scan_plain(head.push(' '), w);
        assert(Seq::<char>::empty() + w =~= w);
    }
}

proof fn lemma_common(word: Seq<char>)
    ensures
        is_common(word) == is_the_or_and(word),
{
    reveal_strlit("the");
    reveal_strlit("and");
    assert("the"@ =~= seq!['t', 'h', 'e']);
    assert("and"@ =~= seq!['a', 'n', 'd']);
}

proof fn lemma_telling_joined(list: Seq<Seq<char>>)
    ensures
        joined(telling(list)) == run_together(list),
        telling(list).len() == 0 <==> forall|i: int|
            0 <= i < list.len() ==> is_the_or_and(#[trigger] list[i]),
    decreases list.len(),
{
    reveal(Seq::filter);
    if list.len() > 0 {
        let earlier = list.drop_last();
        lemma_telling_joined(earlier);
        lemma_common(list.last());
        let n = list.len() - 1;
        if is_the_or_and(list.last()) {
            assert(telling(list) == telling(earlier));
            assert forall|i: int| 0 <= i < list.len() && telling(list).len() == 0 implies is_the_or_and(
                #[trigger] list[i],
            ) by {
                if i < n {
                    assert(earlier[i] == list[i]);
                }
            }
            if forall|i: int| 0 <= i < list.len() ==> is_the_or_and(#[trigger] list[i]) {
                assert forall|i: int| 0 <= i < earlier.len() implies is_the_or_and(
                    #[trigger] earlier[i],
                ) by {
                    assert(earlier[i] == list[i]);
                }
            }
        } else {
            assert(telling(list) =~= telling(earlier).push(list.last()));
            assert(telling(list).drop_last() =~= telling(earlier));
            assert(!is_the_or_and(list[n]));
        }
    }
}

/// The form of a name in lowercase words: the words without spaces, and without "the" and
/// "and", which fall out only as whole words. Of a name that has no other words they stay.
pub proof fn law_form_of_words(list: Seq<Seq<char>>)
    requires
        list.len() > 0,
        forall|i: int|
            0 <= i < list.len() ==> (#[trigger] list[i]).len() > 0 && all_plain(list[i]),
    ensures
        (exists|i: int| 0 <= i < list.len() && !is_the_or_and(#[trigger] list[i]))
            ==> comparison_form(spaced(list)) == run_together(list),
        (forall|i: int| 0 <= i < list.len() ==> is_the_or_and(#[trigger] list[i]))
            ==> comparison_form(spaced(list)) == joined(list),
{
    lemma_scan_spaced(list);
    assert(list[list.len() - 1].len() > 0);
    assert(words(spaced(list)) =~= list);
    lemma_telling_joined(list);
}

/// Words without spaces are the words one after another.
pub proof fn law_joined(list: Seq<Seq<char>>, word: Seq<char>)
    ensures
        joined(list.push(word)) == joined(list) + word,
        joined(Seq::<Seq<char>>::empty()) == Seq::<char>::empty(),
{
    assert(list.push(word).drop_last() =~= list);
}

/// Sanitizing goes character by character: an ampersand becomes "and", and any other
/// character stays.
pub proof fn law_sanitizing(
    a: &str,
    b: &str,
    whole: &str,
    of_a: String,
    of_b: String,
    of_whole: String,
)
    requires
        whole@ == a@ + b@,
        call_ensures(sanitize_artist_name_for_search, (a,), of_a),
        call_ensures(sanitize_artist_name_for_search, (b,), of_b),
        call_ensures(sanitize_artist_name_for_search, (whole,), of_whole),
    ensures
        of_whole@ == of_a@ + of_b@,
        a@ == seq!['&'] ==> of_a@ == seq!['a', 'n', 'd'],
        a@.len() == 1 && a@[0] != '&' ==> of_a@ == a@,
        a@.len() == 0 ==> of_a@.len() == 0,
{
    reveal_strlit("and");
    assert("and"@ =~= seq!['a', 'n', 'd']);
    lemma_replaced_add(a@, b@, '&', "and"@);
    if a@.len() == 1 {
        assert(a@ =~= seq![a@[0]]);
        lemma_replaced_one(a@[0], '&', "and"@);
    }
}

/// An identifier has five groups of eight, four, four, four and twelve hexadecimal digits
/// of either case, with dashes between them, and nothing else.
pub proof fn law_shape_of_mbid(input: &str, r: bool)
    requires
        call_ensures(is_mbid, (input,), r),
    ensures
        r ==> input@.len() == 36,
        r ==> input@[8] == '-' && input@[13] == '-' && input@[18] == '-' && input@[23] == '-',
        forall|i: int|
            #![trigger input@[i]]
            r && 0 <= i < 36 && i != 8 && i != 13 && i != 18 && i != 23 ==> ('0' <= input@[i] <= '9'
                || 'a' <= input@[i] <= 'f' || 'A' <= input@[i] <= 'F'),
        input@.len() == 36 && input@[8] == '-' && input@[13] == '-' && input@[18] == '-'
            && input@[23] == '-' && (forall|i: int|
            #![trigger input@[i]]
            0 <= i < 36 && i != 8 && i != 13 && i != 18 && i != 23 ==> ('0' <= input@[i] <= '9'
                || 'a' <= input@[i] <= 'f' || 'A' <= input@[i] <= 'F')) ==> r,
{
}

} // verus!
