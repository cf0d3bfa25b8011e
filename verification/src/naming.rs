//! Artist names and identifiers: bringing them into a form in which they can be
//! compared.

use vstd::prelude::*;
use crate::text::{
    characters, lemma_replaced_absent, lemma_replaced_gone, lemma_texts_push, owned, replace_char,
    replaced, texts,
};

verus! {

/// The words that do not tell one artist from another.
pub open spec fn is_common(word: Seq<char>) -> bool {
    word == "the"@ || word == "and"@
}

/// An ASCII letter or digit.
pub open spec fn is_letter_or_digit(c: char) -> bool {
    'a' <= c <= 'z' || 'A' <= c <= 'Z' || '0' <= c <= '9'
}

/// An ASCII white space character.
pub open spec fn is_blank(c: char) -> bool {
    c == ' ' || '\t' <= c <= '\r'
}

/// An ASCII letter in lowercase; any other character as it is.
pub open spec fn lower(c: char) -> char {
    if 'A' <= c <= 'Z' {
        (c as u8 + 32) as char
    } else {
        c
    }
}

/// The words of a text in lowercase, and the last one apart: it is still being
/// spelled. White space ends a word, and any other character that is neither a
/// letter nor a digit is passed over.
pub open spec fn scanned(s: Seq<char>) -> (Seq<Seq<char>>, Seq<char>)
    decreases s.len(),
{
    if s.len() == 0 {
        (Seq::empty(), Seq::empty())
    } else {
        let (done, word) = scanned(s.drop_last());
        let c = s.last();
        if is_blank(c) {
            if word.len() == 0 {
                (done, word)
            } else {
                (done.push(word), Seq::empty())
            }
        } else if is_letter_or_digit(c) {
            (done, word.push(lower(c)))
        } else {
            (done, word)
        }
    }
}

/// The words of a text, in lowercase and without special characters.
pub open spec fn words(s: Seq<char>) -> Seq<Seq<char>> {
    let (done, word) = scanned(s);
    if word.len() == 0 {
        done
    } else {
        done.push(word)
    }
}

/// The words that tell one artist from another.
pub open spec fn telling(list: Seq<Seq<char>>) -> Seq<Seq<char>> {
    list.filter(|w: Seq<char>| !is_common(w))
}

/// Words one after another, without spaces between them.
pub open spec fn joined(list: Seq<Seq<char>>) -> Seq<char>
    decreases list.len(),
{
    if list.len() == 0 {
        Seq::empty()
    } else {
        joined(list.drop_last()) + list.last()
    }
}

/// The form in which a name in ASCII is compared: its telling words or, of a name that
/// has only common words, those words, without spaces between them.
pub open spec fn comparison_form(ascii: Seq<char>) -> Seq<char> {
    let all = words(ascii);
    if telling(all).len() == 0 {
        joined(all)
    } else {
        joined(telling(all))
    }
}

fn letter_or_digit(c: char) -> (r: bool)
    ensures
        r == is_letter_or_digit(c),
{
    ('a' <= c && c <= 'z') || ('A' <= c && c <= 'Z') || ('0' <= c && c <= '9')
}

fn blank(c: char) -> (r: bool)
    ensures
        r == is_blank(c),
{
    c == ' ' || ('\t' <= c && c <= '\r')
}

fn to_lower(c: char) -> (r: char)
    ensures
        r == lower(c),
{
    if 'A' <= c && c <= 'Z' {
        (c as u8 + 32) as char
    } else {
        c
    }
}

fn common(word: &String) -> (r: bool)
    ensures
        r == is_common(word@),
{
    *word == owned("the") || *word == owned("and")
}

/// Splits a text into words.
fn split_words(s: &str) -> (r: Vec<String>)
    ensures
        texts(r@) == words(s@),
{
    let chars = characters(s);
    let mut done: Vec<String> = Vec::new();
    let mut word = String::new();
    let mut i: usize = 0;
    assert(texts(done@) =~= Seq::empty());
    while i < chars.len()
        invariant
            i <= chars.len(),
            scanned(chars@.take(i as int)) == (texts(done@), word@),
        decreases chars.len() - i,
    {
        let c = chars[i];
        assert(chars@.take(i + 1).drop_last() =~= chars@.take(i as int));
        if blank(c) {
            if !word.as_str().is_empty() {
                proof {
                    lemma_texts_push(done@, word);
                }
                done.push(word);
                word = String::new();
            }
        } else if letter_or_digit(c) {
            word.push(to_lower(c));
        }
        i = i + 1;
    }
    assert(chars@.take(i as int) =~= chars@);
    if !word.as_str().is_empty() {
        proof {
            lemma_texts_push(done@, word);
        }
        done.push(word);
    }
    done
}

/// Writes words one after another, without spaces between them.
fn join_words(list: &Vec<String>) -> (r: String)
    ensures
        r@ == joined(texts(list@)),
{
    let ghost all = texts(list@);
    let mut out = String::new();
    let mut i: usize = 0;
    assert(all.take(0) =~= Seq::empty());
    while i < list.len()
        invariant
            i <= list.len(),
            all == texts(list@),
            out@ == joined(all.take(i as int)),
        decreases list.len() - i,
    {
        proof {
            assert(all.take(i + 1).drop_last() =~= all.take(i as int));
            assert(all.take(i + 1).last() == list@[i as int]@);
        }
        out.append(list[i].as_str());
        i = i + 1;
    }
    assert(all.take(i as int) =~= all);
    out
}

/// Keeps the words that tell one artist from another.
fn keep_telling(list: &Vec<String>) -> (r: Vec<String>)
    ensures
        texts(r@) == telling(texts(list@)),
{
    let ghost all = texts(list@);
    let ghost p = |w: Seq<char>| !is_common(w);
    let mut out: Vec<String> = Vec::new();
    let mut i: usize = 0;
    proof {
        reveal(Seq::filter);
        assert(all.take(0) =~= Seq::empty());
        assert(texts(out@) =~= Seq::empty());
    }
    while i < list.len()
        invariant
            i <= list.len(),
            all == texts(list@),
            p == (|w: Seq<char>| !is_common(w)),
            texts(out@) == all.take(i as int).filter(p),
        decreases list.len() - i,
    {
        proof {
            reveal(Seq::filter);
            assert(all.take(i + 1).drop_last() =~= all.take(i as int));
            assert(all.take(i + 1).last() == list@[i as int]@);
        }
        if !common(&list[i]) {
            let word = list[i].clone();
            proof {
                lemma_texts_push(out@, word);
            }
            out.push(word);
        }
        i = i + 1;
    }
    assert(all.take(i as int) =~= all);
    out
}

/// Brings a name in ASCII into the form in which names are compared.
pub fn normalize_ascii_name(ascii: &str) -> (r: String)
    ensures
        r@ == comparison_form(ascii@),
{
    let all = split_words(ascii);
    let list = keep_telling(&all);
    if list.len() == 0 {
        join_words(&all)
    } else {
        join_words(&list)
    }
}

/// The ASCII transliteration of a text.
pub uninterp spec fn transliterated(text: Seq<char>) -> Seq<char>;

/// [`deunicode::deunicode`]: transliterates a text into ASCII. A text of ASCII
/// characters below `DEL` stays as it is; the tables for the rest are left unsaid,
/// beyond that the outcome is ASCII and depends on the text alone.
#[verifier::external_body]
fn transliterate(text: &str) -> (r: String)
    ensures
        r@ == transliterated(text@),
        forall|i: int| 0 <= i < r@.len() ==> #[trigger] r@[i] <= '\x7f',
        (forall|i: int| 0 <= i < text@.len() ==> #[trigger] text@[i] < '\x7f') ==> r@ == text@,
{
    deunicode::deunicode(text)
}

/// The form in which a name is compared.
pub open spec fn normalized(name: Seq<char>) -> Seq<char> {
    comparison_form(transliterated(name))
}

/// Normalize an artist name for comparison by removing all special characters
/// and common words like "the", "and", etc.
///
/// This function:
/// - Converts to ASCII (removing accents, etc.)
/// - Removes ALL special characters (keeping only letters, numbers, and spaces)
/// - Converts to lowercase
/// - Removes common words like "the", "and" (only complete words, not substrings)
/// - Removes ALL spaces in the final result
///
/// Where only common words are left, they stay.
pub fn normalize_artist_name_for_comparison(artist_name: &str) -> (r: String)
    ensures
        r@ == normalized(artist_name@),
        (forall|i: int| 0 <= i < artist_name@.len() ==> #[trigger] artist_name@[i] < '\x7f')
            ==> r@ == comparison_form(artist_name@),
{
    let ascii_name = transliterate(artist_name);
    normalize_ascii_name(ascii_name.as_str())
}

/// Sanitize an artist name for MusicBrainz API queries by replacing problematic
/// characters: ampersands become "and" as they can cause search issues
pub fn sanitize_artist_name_for_search(artist_name: &str) -> (r: String)
    ensures
        r@ == replaced(artist_name@, '&', "and"@),
{
    replace_char(artist_name, '&', "and")
}

/// How much two texts resemble each other, as the bits of a binary64 number between
/// zero and one. The bits of such numbers are in the order of the numbers.
pub uninterp spec fn resemblance(a: Seq<char>, b: Seq<char>) -> u64;

/// [`strsim::jaro_winkler`]: the Jaro-Winkler similarity of two texts. The formula
/// is left unsaid: the contract only says that the number depends on the two texts
/// alone. It is never negative and never NaN, so its bits are in its order.
#[verifier::external_body]
fn jaro_winkler_bits(a: &str, b: &str) -> (r: u64)
    ensures
        r == resemblance(a@, b@),
{
    strsim::jaro_winkler(a, b).to_bits()
}

/// The bits of 0.9: from here on two names are similar enough.
pub const SIMILARITY_THRESHOLD_BITS: u64 = 0x3fec_cccc_cccc_cccd;

/// Two names in the form for comparison match: they are equal, or similar enough.
pub open spec fn close(query: Seq<char>, name: Seq<char>) -> bool {
    query == name || resemblance(query, name) >= SIMILARITY_THRESHOLD_BITS
}

/// A name, or one of its aliases, matches the name that was searched for.
pub open spec fn names_match(
    query: Seq<char>,
    name: Seq<char>,
    aliases: Seq<Seq<char>>,
) -> bool {
    ||| close(normalized(query), normalized(name))
    ||| exists|i: int|
        0 <= i < aliases.len() && close(normalized(query), normalized(#[trigger] aliases[i]))
}

/// Whether a resemblance is high enough, or the names are equal anyway.
pub fn close_enough(equal: bool, resemblance_bits: u64) -> (r: bool)
    ensures
        r == (equal || resemblance_bits >= SIMILARITY_THRESHOLD_BITS),
{
    equal || resemblance_bits >= SIMILARITY_THRESHOLD_BITS
}

fn names_close(query: &String, name: &String) -> (r: bool)
    ensures
        r == close(query@, name@),
{
    let equal = *query == *name;
    equal || close_enough(equal, jaro_winkler_bits(query.as_str(), name.as_str()))
}

/// Compare two artist names to see if they match, using both exact normalized
/// comparison and fuzzy matching when needed
///
/// # Arguments
/// * `query_name` - The artist name we're searching for
/// * `response_name` - The artist name returned from MusicBrainz
/// * `response_aliases` - Optional vector of artist aliases/alternative names
pub fn artist_names_match(
    query_name: &str,
    response_name: &str,
    response_aliases: Option<&Vec<String>>,
) -> (r: bool)
    ensures
        r == names_match(
            query_name@,
            response_name@,
            match response_aliases {
                Some(aliases) => texts(aliases@),
                None => Seq::empty(),
            },
        ),
{
    let normalized_query = normalize_artist_name_for_comparison(query_name);
    let normalized_response = normalize_artist_name_for_comparison(response_name);
    if names_close(&normalized_query, &normalized_response) {
        return true;
    }
    match response_aliases {
        Some(aliases) => {
            let ghost all = texts(aliases@);
            let mut i: usize = 0;
            while i < aliases.len()
                invariant
                    i <= aliases.len(),
                    all == texts(aliases@),
                    normalized_query@ == normalized(query_name@),
                    forall|k: int|
                        0 <= k < i ==> !close(
                            normalized(query_name@),
                            normalized(#[trigger] all[k]),
                        ),
                    response_aliases == Some(aliases),
                    !close(normalized(query_name@), normalized(response_name@)),
                decreases aliases.len() - i,
            {
                let normalized_alias = normalize_artist_name_for_comparison(aliases[i].as_str());
                assert(all[i as int] == aliases@[i as int]@);
                if names_close(&normalized_query, &normalized_alias) {
                    return true;
                }
                i = i + 1;
            }
            false
        },
        None => false,
    }
}

/// A hexadecimal digit.
pub open spec fn is_hex_digit(c: char) -> bool {
    '0' <= c <= '9' || 'a' <= c <= 'f' || 'A' <= c <= 'F'
}

/// A text in the form of a UUID: groups of eight, four, four, four and twelve
/// hexadecimal digits with a dash between them.
pub open spec fn is_uuid(s: Seq<char>) -> bool {
    &&& s.len() == 36
    &&& forall|i: int|
        0 <= i < 36 ==> if i == 8 || i == 13 || i == 18 || i == 23 {
            #[trigger] s[i] == '-'
        } else {
            is_hex_digit(s[i])
        }
}

/// Check if a string appears to be a valid MusicBrainz ID (MBID)
///
/// MusicBrainz IDs are formatted as UUIDs: xxxxxxxx-xxxx-xxxx-xxxx-xxxxxxxxxxxx
pub fn is_mbid(input: &str) -> (r: bool)
    ensures
        r == is_uuid(input@),
{
    let chars = characters(input);
    if chars.len() != 36 {
        return false;
    }
    let mut i: usize = 0;
    while i < chars.len()
        invariant
            i <= chars.len(),
            chars.len() == 36,
            chars@ == input@,
            forall|k: int|
                0 <= k < i ==> if k == 8 || k == 13 || k == 18 || k == 23 {
                    #[trigger] chars@[k] == '-'
                } else {
                    is_hex_digit(chars@[k])
                },
        decreases chars.len() - i,
    {
        let c = chars[i];
        let fits = if i == 8 || i == 13 || i == 18 || i == 23 {
            c == '-'
        } else {
            ('0' <= c && c <= '9') || ('a' <= c && c <= 'f') || ('A' <= c && c <= 'F')
        };
        if !fits {
            assert(chars@[i as int] == c);
            return false;
        }
        i = i + 1;
    }
    true
}

/// A name matches itself, whatever the aliases are.
pub proof fn law_name_matches_itself(name: Seq<char>, aliases: Seq<Seq<char>>)
    ensures
        names_match(name, name, aliases),
{
}

/// Names that differ only in what normalization takes away match.
pub proof fn law_same_normal_form_matches(a: Seq<char>, b: Seq<char>, aliases: Seq<Seq<char>>)
    requires
        normalized(a) == normalized(b),
    ensures
        names_match(a, b, aliases),
{
}

/// An artist is found under any alias.
pub proof fn law_alias_matches(name: Seq<char>, aliases: Seq<Seq<char>>, i: int)
    requires
        0 <= i < aliases.len(),
    ensures
        names_match(aliases[i], name, aliases),
{
}

/// No ampersand is left in a sanitized name, and a name without one stays as it is.
pub proof fn law_sanitized_has_no_ampersand(name: Seq<char>)
    ensures
        !replaced(name, '&', "and"@).contains('&'),
        !name.contains('&') ==> replaced(name, '&', "and"@) == name,
{
    reveal_strlit("and");
    lemma_replaced_gone(name, '&', "and"@);
    if !name.contains('&') {
        lemma_replaced_absent(name, '&', "and"@);
    }
}

/// A lowercase ASCII letter or a digit.
pub open spec fn is_plain(c: char) -> bool {
    'a' <= c <= 'z' || '0' <= c <= '9'
}

/// A text of lowercase ASCII letters and digits.
pub open spec fn all_plain(s: Seq<char>) -> bool {
    forall|i: int| 0 <= i < s.len() ==> is_plain(#[trigger] s[i])
}

/// A word as the words of a text are.
spec fn is_word(w: Seq<char>) -> bool {
    w.len() > 0 && all_plain(w)
}

proof fn lemma_scanned_words(s: Seq<char>)
    ensures
        all_plain(scanned(s).1),
        forall|i: int| 0 <= i < scanned(s).0.len() ==> is_word(#[trigger] scanned(s).0[i]),
    decreases s.len(),
{
    if s.len() > 0 {
        lemma_scanned_words(s.drop_last());
    }
}

proof fn lemma_words(s: Seq<char>)
    ensures
        forall|i: int| 0 <= i < words(s).len() ==> is_word(#[trigger] words(s)[i]),
{
    lemma_scanned_words(s);
}

proof fn lemma_joined_plain(list: Seq<Seq<char>>)
    requires
        forall|i: int| 0 <= i < list.len() ==> is_word(#[trigger] list[i]),
    ensures
        all_plain(joined(list)),
        list.len() > 0 ==> joined(list).len() > 0,
    decreases list.len(),
{
    if list.len() > 0 {
        lemma_joined_plain(list.drop_last());
        assert(is_word(list[list.len() - 1]));
    }
}

proof fn lemma_telling_words(list: Seq<Seq<char>>)
    requires
        forall|i: int| 0 <= i < list.len() ==> is_word(#[trigger] list[i]),
    ensures
        forall|i: int| 0 <= i < telling(list).len() ==> is_word(#[trigger] telling(list)[i]),
{
    let p = |w: Seq<char>| !is_common(w);
    assert forall|i: int| 0 <= i < telling(list).len() implies is_word(#[trigger] telling(list)[i]) by {
        let w = telling(list)[i];
        assert(list.filter(p).contains(w));
        list.lemma_filter_contains_rev(p, w);
    }
}

/// The form for comparison has only lowercase letters and digits, and so no space.
pub proof fn law_form_is_plain(ascii: Seq<char>)
    ensures
        all_plain(comparison_form(ascii)),
        !comparison_form(ascii).contains(' '),
{
    lemma_words(ascii);
    lemma_telling_words(words(ascii));
    lemma_joined_plain(words(ascii));
    lemma_joined_plain(telling(words(ascii)));
}

/// Upper and lower case make no difference.
pub proof fn law_case_makes_no_difference(a: Seq<char>, b: Seq<char>)
    requires
        a.len() == b.len(),
        forall|i: int| 0 <= i < a.len() ==> lower(#[trigger] a[i]) == lower(b[i]),
    ensures
        comparison_form(a) == comparison_form(b),
{
    lemma_scan_ignores_case(a, b);
}

proof fn lemma_scan_ignores_case(a: Seq<char>, b: Seq<char>)
    requires
        a.len() == b.len(),
        forall|i: int| 0 <= i < a.len() ==> lower(#[trigger] a[i]) == lower(b[i]),
    ensures
        scanned(a) == scanned(b),
    decreases a.len(),
{
    if a.len() > 0 {
        lemma_scan_ignores_case(a.drop_last(), b.drop_last());
        assert(lower(a[a.len() - 1]) == lower(b[a.len() - 1]));
    }
}

proof fn lemma_scan_word(s: Seq<char>, w: Seq<char>)
    requires
        all_plain(w),
    ensures
        scanned(s + w) == (scanned(s).0, scanned(s).1 + w),
    decreases w.len(),
{
    if w.len() == 0 {
        assert(s + w =~= s);
        assert(scanned(s).1 + w =~= scanned(s).1);
    } else {
        lemma_scan_word(s, w.drop_last());
        assert((s + w).drop_last() =~= s + w.drop_last());
        assert(is_plain(w[w.len() - 1]));
        assert((scanned(s).1 + w.drop_last()).push(w.last()) =~= scanned(s).1 + w);
    }
}

/// A word is its own form.
proof fn lemma_form_of_word(w: Seq<char>)
    requires
        is_word(w),
    ensures
        comparison_form(w) == w,
{
    lemma_scan_word(Seq::empty(), w);
    assert(Seq::<char>::empty() + w =~= w);
    let one = seq![w];
    assert(words(w) =~= one);
    assert(one.drop_last() =~= Seq::empty());
    reveal_with_fuel(joined, 2);
    reveal_with_fuel(Seq::filter, 2);
    assert(Seq::<Seq<char>>::empty().push(w) =~= one);
}

/// A name that is in the form for comparison stays as it is.
pub proof fn law_form_is_stable(ascii: Seq<char>)
    ensures
        comparison_form(comparison_form(ascii)) == comparison_form(ascii),
{
    let all = words(ascii);
    lemma_words(ascii);
    lemma_telling_words(all);
    lemma_joined_plain(all);
    lemma_joined_plain(telling(all));
    let form = comparison_form(ascii);
    if form.len() > 0 {
        lemma_form_of_word(form);
    } else {
        assert(form =~= Seq::empty());
        assert(words(form) =~= Seq::empty());
        reveal(Seq::filter);
    }
}

/// Normalizing twice is normalizing once: a name that was normalized comes back as it
/// is.
pub proof fn law_normalizing_twice(name: &str, once: &str, first: String, again: String)
    requires
        call_ensures(normalize_artist_name_for_comparison, (name,), first),
        once@ == first@,
        call_ensures(normalize_artist_name_for_comparison, (once,), again),
    ensures
        again@ == first@,
{
    let ascii = transliterated(name@);
    law_form_is_plain(ascii);
    law_form_is_stable(ascii);
    assert forall|i: int| 0 <= i < once@.len() implies #[trigger] once@[i] < '\x7f' by {
        assert(is_plain(first@[i]));
    }
}

} // verus!
