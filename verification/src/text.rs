//! Text as sequences of characters: joining, searching, encoding and ordering.

use vstd::prelude::*;
use vstd::utf8::encode_utf8;

verus! {

/// [`String::push`]: appends one character to the end of the string.
pub assume_specification[ std::string::String::push ](s: &mut std::string::String, c: char)
    ensures
        final(s)@ == old(s)@.push(c),
;

/// The texts that a list of strings holds.
pub open spec fn texts(list: Seq<String>) -> Seq<Seq<char>> {
    list.map_values(|s: String| s@)
}

/// Appending a string appends its text.
pub proof fn lemma_texts_push(list: Seq<String>, s: String)
    ensures
        texts(list.push(s)) == texts(list).push(s@),
{
    assert(texts(list.push(s)) =~= texts(list).push(s@));
}

/// A list without texts.
pub fn no_texts() -> (r: Vec<String>)
    ensures
        texts(r@) == Seq::<Seq<char>>::empty(),
{
    let none: Vec<String> = Vec::new();
    assert(texts(none@) =~= Seq::empty());
    none
}

/// The text of a string slice, as a string of its own.
pub fn owned(s: &str) -> (r: String)
    ensures
        r@ == s@,
{
    s.to_string()
}

/// Two texts in a row.
pub fn join2(a: &str, b: &str) -> (r: String)
    ensures
        r@ == a@ + b@,
{
    let mut out = a.to_string();
    out.append(b);
    out
}

/// Three texts in a row.
pub fn join3(a: &str, b: &str, c: &str) -> (r: String)
    ensures
        r@ == a@ + b@ + c@,
{
    let mut out = a.to_string();
    out.append(b);
    out.append(c);
    out
}

/// The characters of a text, in order.
pub fn characters(s: &str) -> (r: Vec<char>)
    ensures
        r@ == s@,
{
    let mut out: Vec<char> = Vec::new();
    for c in it: s.chars()
        invariant
            out@ == it.seq().take(it.index()),
            it.seq() == s@,
    {
        out.push(c);
    }
    out
}

/// `s` with each `from` replaced by the text `to`.
pub open spec fn replaced(s: Seq<char>, from: char, to: Seq<char>) -> Seq<char>
    decreases s.len(),
{
    if s.len() == 0 {
        Seq::empty()
    } else if s.last() == from {
        replaced(s.drop_last(), from, to) + to
    } else {
        replaced(s.drop_last(), from, to).push(s.last())
    }
}

/// Replaces one character by a text, wherever it occurs.
pub fn replace_char(s: &str, from: char, to: &str) -> (r: String)
    ensures
        r@ == replaced(s@, from, to@),
{
    let chars = characters(s);
    let mut out = String::new();
    let mut i: usize = 0;
    while i < chars.len()
        invariant
            i <= chars.len(),
            out@ == replaced(chars@.take(i as int), from, to@),
        decreases chars.len() - i,
    {
        if chars[i] == from {
            out.append(to);
        } else {
            out.push(chars[i]);
        }
        i = i + 1;
        assert(chars@.take(i as int).drop_last() =~= chars@.take(i - 1));
    }
    assert(chars@.take(i as int) =~= chars@);
    out
}

/// A text without the character is left as it is.
pub proof fn lemma_replaced_absent(s: Seq<char>, from: char, to: Seq<char>)
    requires
        !s.contains(from),
    ensures
        replaced(s, from, to) == s,
    decreases s.len(),
{
    if s.len() > 0 {
        assert(s.contains(s.last()));
        assert forall|c: char| s.drop_last().contains(c) implies s.contains(c) by {
            let i = choose|i: int| 0 <= i < s.drop_last().len() && s.drop_last()[i] == c;
            assert(s[i] == c);
        }
        lemma_replaced_absent(s.drop_last(), from, to);
        assert(s.drop_last().push(s.last()) =~= s);
    } else {
        assert(s =~= Seq::empty());
    }
}

/// The character is gone afterwards, if the text put in its place does not hold it.
pub proof fn lemma_replaced_gone(s: Seq<char>, from: char, to: Seq<char>)
    requires
        !to.contains(from),
    ensures
        !replaced(s, from, to).contains(from),
    decreases s.len(),
{
    if s.len() > 0 {
        let head = replaced(s.drop_last(), from, to);
        let whole = replaced(s, from, to);
        lemma_replaced_gone(s.drop_last(), from, to);
        if whole.contains(from) {
            let i = choose|i: int| 0 <= i < whole.len() && whole[i] == from;
            if i < head.len() {
                assert(head[i] == from);
            } else if s.last() == from {
                assert(to[i - head.len()] == from);
            }
        }
    }
}

/// `needle` occurs in `hay` at position `at`.
pub open spec fn occurs_at(hay: Seq<char>, needle: Seq<char>, at: int) -> bool {
    &&& 0 <= at <= hay.len() - needle.len()
    &&& hay.subrange(at, at + needle.len()) == needle
}

/// `needle` occurs somewhere in `hay`.
pub open spec fn occurs(hay: Seq<char>, needle: Seq<char>) -> bool {
    exists|at: int| occurs_at(hay, needle, at)
}

fn found_at(hay: &Vec<char>, needle: &Vec<char>, at: usize) -> (r: bool)
    requires
        at + needle.len() <= hay.len(),
    ensures
        r == occurs_at(hay@, needle@, at as int),
{
    let mut i: usize = 0;
    while i < needle.len()
        invariant
            i <= needle.len(),
            at + needle.len() <= hay.len(),
            forall|k: int| 0 <= k < i ==> hay@[at + k] == needle@[k],
        decreases needle.len() - i,
    {
        if hay[at + i] != needle[i] {
            assert(hay@.subrange(at as int, at + needle.len())[i as int] != needle@[i as int]);
            return false;
        }
        i = i + 1;
    }
    assert(hay@.subrange(at as int, at + needle.len()) =~= needle@);
    true
}

/// Whether one text occurs in another.
pub fn contains_text(hay: &str, needle: &str) -> (r: bool)
    ensures
        r == occurs(hay@, needle@),
{
    let h = characters(hay);
    let n = characters(needle);
    if n.len() > h.len() {
        return false;
    }
    let last: usize = h.len() - n.len();
    let mut at: usize = 0;
    loop
        invariant
            at <= last,
            last + n.len() == h.len(),
            h@ == hay@,
            n@ == needle@,
            forall|k: int| 0 <= k < at ==> !occurs_at(hay@, needle@, k),
        decreases last - at,
    {
        if found_at(&h, &n, at) {
            return true;
        }
        if at == last {
            return false;
        }
        at = at + 1;
    }
}

/// Whether two texts are the same.
pub fn same_text(a: &str, b: &str) -> (r: bool)
    ensures
        r == (a@ == b@),
{
    let x = owned(a);
    let y = owned(b);
    x == y
}

/// The lowercase form of a text, as Unicode defines it.
pub uninterp spec fn lowercased(text: Seq<char>) -> Seq<char>;

/// [`str::to_lowercase`]: the lowercase form of a text. What it is goes by the
/// Unicode tables and is left unsaid: the contract only says that it depends on
/// the text alone.
#[verifier::external_body]
pub(crate) fn to_lowercase(text: &str) -> (r: String)
    ensures
        r@ == lowercased(text@),
{
    text.to_lowercase()
}

/// The bytes that percent-encoding leaves as they are.
pub open spec fn unreserved(b: u8) -> bool {
    ||| 0x30 <= b <= 0x39
    ||| 0x41 <= b <= 0x5a
    ||| 0x61 <= b <= 0x7a
    ||| b == 0x2d
    ||| b == 0x2e
    ||| b == 0x5f
    ||| b == 0x7e
}

/// The uppercase hexadecimal digit of a value below sixteen.
pub open spec fn hex_digit(n: u8) -> char {
    if n < 10 {
        (0x30 + n) as char
    } else {
        (0x37 + n) as char
    }
}

/// The percent-encoding of a sequence of bytes.
pub open spec fn percent_encoded(bytes: Seq<u8>) -> Seq<char>
    decreases bytes.len(),
{
    if bytes.len() == 0 {
        Seq::empty()
    } else {
        let b = bytes.last();
        percent_encoded(bytes.drop_last()) + if unreserved(b) {
            seq![b as char]
        } else {
            seq!['%', hex_digit(b / 16), hex_digit(b % 16)]
        }
    }
}

/// The percent-encoding of a text, by way of its UTF-8 bytes.
pub open spec fn url_encoded(text: Seq<char>) -> Seq<char> {
    percent_encoded(encode_utf8(text))
}

/// [`urlencoding::encode`]: every byte of the UTF-8 form is written as `%XX` with
/// uppercase digits, except letters, digits, `-`, `.`, `_` and `~`, which stay.
#[verifier::external_body]
pub(crate) fn url_encode(text: &str) -> (r: String)
    ensures
        r@ == url_encoded(text@),
{
    urlencoding::encode(text).into_owned()
}

/// The value of a hexadecimal digit.
pub open spec fn hex_value(digit: char) -> int {
    if digit <= '9' {
        digit as int - 0x30
    } else if digit <= 'F' {
        digit as int - 0x37
    } else {
        digit as int - 0x57
    }
}

/// The bytes that a receiver reads out of a percent-encoded text: `%` and two digits
/// stand for one byte, any other character for itself.
pub open spec fn percent_decoded(s: Seq<char>) -> Seq<u8>
    decreases s.len(),
{
    if s.len() == 0 {
        Seq::empty()
    } else if s[0] == '%' && s.len() >= 3 {
        seq![(16 * hex_value(s[1]) + hex_value(s[2])) as u8] + percent_decoded(s.skip(3))
    } else {
        seq![s[0] as u8] + percent_decoded(s.skip(1))
    }
}

/// The characters that may stand in a percent-encoded text: no `&`, `=`, `+`, `#` or
/// space is among them.
pub open spec fn is_url_safe(c: char) -> bool {
    'A' <= c <= 'Z' || 'a' <= c <= 'z' || '0' <= c <= '9' || c == '-' || c == '.' || c == '_'
        || c == '~' || c == '%'
}

proof fn lemma_encoded_front(bytes: Seq<u8>)
    requires
        bytes.len() > 0,
    ensures
        percent_encoded(bytes) == percent_encoded(seq![bytes[0]]) + percent_encoded(
            bytes.drop_first(),
        ),
    decreases bytes.len(),
{
    let one = seq![bytes[0]];
    let rest = bytes.drop_first();
    if rest.len() == 0 {
        assert(bytes =~= one);
        assert(percent_encoded(rest) =~= Seq::empty());
        assert(percent_encoded(one) + percent_encoded(rest) =~= percent_encoded(bytes));
    } else {
        lemma_encoded_front(bytes.drop_last());
        assert(bytes.drop_last().drop_first() =~= rest.drop_last());
        assert(rest.last() == bytes.last());
        assert(percent_encoded(bytes) =~= percent_encoded(one) + percent_encoded(rest));
    }
}

proof fn lemma_encoded_byte(b: u8, rest: Seq<char>)
    ensures
        percent_decoded(percent_encoded(seq![b]) + rest) == seq![b] + percent_decoded(rest),
        forall|i: int|
            0 <= i < percent_encoded(seq![b]).len() ==> is_url_safe(
                #[trigger] percent_encoded(seq![b])[i],
            ),
{
    let one = seq![b];
    let code = percent_encoded(one);
    assert(one.drop_last() =~= Seq::empty());
    reveal_with_fuel(percent_encoded, 2);
    if unreserved(b) {
        assert(code =~= seq![b as char]);
        assert((code + rest).skip(1) =~= rest);
        assert(b as char as u8 == b);
    } else {
        assert(code =~= seq!['%', hex_digit(b / 16), hex_digit(b % 16)]);
        assert((code + rest).skip(3) =~= rest);
        assert(16 * (b / 16) + b % 16 == b);
        assert(hex_value(hex_digit(b / 16)) == b / 16);
        assert(hex_value(hex_digit(b % 16)) == b % 16);
    }
}

proof fn lemma_decoded(bytes: Seq<u8>)
    ensures
        percent_decoded(percent_encoded(bytes)) == bytes,
        forall|i: int|
            0 <= i < percent_encoded(bytes).len() ==> is_url_safe(
                #[trigger] percent_encoded(bytes)[i],
            ),
    decreases bytes.len(),
{
    if bytes.len() > 0 {
        let one = seq![bytes[0]];
        let rest = bytes.drop_first();
        lemma_encoded_front(bytes);
        lemma_encoded_byte(bytes[0], percent_encoded(rest));
        lemma_decoded(rest);
        assert(one + rest =~= bytes);
        let whole = percent_encoded(bytes);
        let head = percent_encoded(one);
        assert forall|i: int| 0 <= i < whole.len() implies is_url_safe(#[trigger] whole[i]) by {
            if i < head.len() {
                assert(whole[i] == head[i]);
            } else {
                assert(whole[i] == percent_encoded(rest)[i - head.len()]);
            }
        }
    } else {
        assert(percent_decoded(percent_encoded(bytes)) =~= bytes);
    }
}

/// What was percent-encoded decodes to the UTF-8 bytes of the text, and only characters
/// that are safe in a URL are used: nothing in a text can end the parameter it stands in.
pub proof fn law_encoding_decodes(text: Seq<char>)
    ensures
        percent_decoded(url_encoded(text)) == encode_utf8(text),
        forall|i: int|
            0 <= i < url_encoded(text).len() ==> is_url_safe(#[trigger] url_encoded(text)[i]),
{
    lemma_decoded(encode_utf8(text));
}

/// A text of unreserved characters is its own encoding.
pub proof fn law_plain_text_stays(text: Seq<char>)
    requires
        forall|i: int|
            0 <= i < text.len() ==> is_url_safe(#[trigger] text[i]) && text[i] != '%',
    ensures
        url_encoded(text) == text,
    decreases text.len(),
{
    if text.len() > 0 {
        let rest = text.drop_first();
        assert forall|i: int| 0 <= i < rest.len() implies is_url_safe(#[trigger] rest[i]) && rest[i]
            != '%' by {
            assert(rest[i] == text[i + 1]);
        }
        law_plain_text_stays(rest);
        let bytes = encode_utf8(text);
        let c = text[0];
        assert(is_url_safe(c));
        assert forall|i: int| 0 <= i < text.len() implies '\0' <= #[trigger] text[i] <= '\u{7f}' by {
            assert(is_url_safe(text[i]));
        }
        assert(vstd::utf8::is_ascii_chars(text));
        vstd::utf8::is_ascii_chars_encode_utf8(text);
        assert(vstd::utf8::is_ascii_chars(rest));
        vstd::utf8::is_ascii_chars_encode_utf8(rest);
        assert(bytes[0] == c as u8);
        assert(bytes.drop_first() =~= encode_utf8(rest)) by {
            assert forall|i: int| 0 <= i < rest.len() implies bytes.drop_first()[i] == encode_utf8(
                rest,
            )[i] by {
                assert(rest[i] == text[i + 1]);
                assert(bytes[i + 1] == text[i + 1] as u8);
            }
        }
        lemma_encoded_front(bytes);
        let one = seq![c as u8];
        assert(one.drop_last() =~= Seq::empty());
        reveal_with_fuel(percent_encoded, 2);
        assert(unreserved(c as u8));
        assert(percent_encoded(one) =~= seq![c]);
        assert(seq![c] + rest =~= text);
    } else {
        assert(url_encoded(text) =~= text);
    }
}

/// Different texts have different UTF-8 bytes.
pub proof fn lemma_utf8_tells_apart(a: Seq<char>, b: Seq<char>)
    requires
        encode_utf8(a) == encode_utf8(b),
    ensures
        a == b,
{
    vstd::utf8::encode_utf8_decode_utf8(a);
    vstd::utf8::encode_utf8_decode_utf8(b);
}

/// A text is the form of another one for a URL: it decodes to its UTF-8 bytes, and nothing
/// in it ends the parameter.
pub open spec fn encodes(encoded: Seq<char>, text: Seq<char>) -> bool {
    &&& percent_decoded(encoded) == encode_utf8(text)
    &&& !encoded.contains('&')
}

/// What is written into a URL decodes to the text.
pub proof fn lemma_encodes(text: Seq<char>)
    ensures
        encodes(url_encoded(text), text),
{
    law_encoding_decodes(text);
}

/// A text stands before another in the order of code points: they agree up to a place where
/// the first one ends, or has the smaller character.
pub open spec fn comes_before(a: Seq<char>, b: Seq<char>) -> bool {
    exists|n: int|
        {
            &&& 0 <= n <= a.len() && n < b.len()
            &&& #[trigger] a.take(n) == b.take(n)
            &&& n == a.len() || (a[n] as int) < (b[n] as int)
        }
}

/// The order in which texts are sorted is that of code points.
pub proof fn law_order_of_texts(a: Seq<char>, b: Seq<char>)
    ensures
        sorts_before(a, b) <==> comes_before(a, b),
    decreases b.len(),
{
    if b.len() > 0 && a.len() > 0 && a[0] == b[0] {
        let x = a.drop_first();
        let y = b.drop_first();
        law_order_of_texts(x, y);
        if comes_before(x, y) {
            let n = choose|n: int|
                {
                    &&& 0 <= n <= x.len() && n < y.len()
                    &&& #[trigger] x.take(n) == y.take(n)
                    &&& n == x.len() || (x[n] as int) < (y[n] as int)
                };
            assert(a.take(n + 1) =~= seq![a[0]] + x.take(n));
            assert(b.take(n + 1) =~= seq![b[0]] + y.take(n));
            assert(a.take(n + 1) == b.take(n + 1));
        }
        if comes_before(a, b) {
            let n = choose|n: int|
                {
                    &&& 0 <= n <= a.len() && n < b.len()
                    &&& #[trigger] a.take(n) == b.take(n)
                    &&& n == a.len() || (a[n] as int) < (b[n] as int)
                };
            assert(n > 0);
            assert(x.take(n - 1) =~= a.take(n).drop_first());
            assert(y.take(n - 1) =~= b.take(n).drop_first());
            assert(x.take(n - 1) == y.take(n - 1));
        }
    } else if b.len() > 0 {
        if sorts_before(a, b) {
            assert(a.take(0) =~= b.take(0));
        }
        if comes_before(a, b) {
            let n = choose|n: int|
                {
                    &&& 0 <= n <= a.len() && n < b.len()
                    &&& #[trigger] a.take(n) == b.take(n)
                    &&& n == a.len() || (a[n] as int) < (b[n] as int)
                };
            if n > 0 {
                assert(a.take(n)[0] == b.take(n)[0]);
            }
        }
    }
}

/// The decimal digit of a value below ten.
pub open spec fn decimal_digit(n: nat) -> char {
    (0x30 + n) as char
}

/// A number in decimal notation.
pub open spec fn decimal(n: nat) -> Seq<char>
    decreases n,
{
    if n < 10 {
        seq![decimal_digit(n)]
    } else {
        decimal(n / 10).push(decimal_digit(n % 10))
    }
}

/// Writes a number in decimal notation.
pub fn to_decimal(n: usize) -> (r: String)
    ensures
        r@ == decimal(n as nat),
    decreases n,
{
    if n < 10 {
        let mut out = String::new();
        out.push((0x30u8 + n as u8) as char);
        assert(out@ =~= seq![decimal_digit(n as nat)]);
        out
    } else {
        let mut out = to_decimal(n / 10);
        out.push((0x30u8 + (n % 10) as u8) as char);
        out
    }
}

/// `a` stands before `b` in the order of code points.
pub open spec fn sorts_before(a: Seq<char>, b: Seq<char>) -> bool
    decreases b.len(),
{
    if b.len() == 0 {
        false
    } else if a.len() == 0 {
        true
    } else if a[0] != b[0] {
        (a[0] as int) < (b[0] as int)
    } else {
        sorts_before(a.drop_first(), b.drop_first())
    }
}

/// Whether one text stands before another in the order of code points.
pub fn precedes(a: &str, b: &str) -> (r: bool)
    ensures
        r == sorts_before(a@, b@),
{
    let x = characters(a);
    let y = characters(b);
    let mut i: usize = 0;
    assert(a@.skip(0) =~= a@);
    assert(b@.skip(0) =~= b@);
    loop
        invariant
            i <= x.len(),
            i <= y.len(),
            x@ == a@,
            y@ == b@,
            sorts_before(a@, b@) == sorts_before(a@.skip(i as int), b@.skip(i as int)),
        decreases y.len() - i,
    {
        if i == y.len() {
            return false;
        }
        if i == x.len() {
            return true;
        }
        if x[i] != y[i] {
            return x[i] < y[i];
        }
        assert(a@.skip(i as int).drop_first() =~= a@.skip(i + 1));
        assert(b@.skip(i as int).drop_first() =~= b@.skip(i + 1));
        i = i + 1;
    }
}

/// No text stands before itself.
pub proof fn lemma_sorts_irreflexive(a: Seq<char>)
    ensures
        !sorts_before(a, a),
    decreases a.len(),
{
    if a.len() > 0 {
        lemma_sorts_irreflexive(a.drop_first());
    }
}

/// The order of texts is transitive.
pub proof fn lemma_sorts_transitive(a: Seq<char>, b: Seq<char>, c: Seq<char>)
    requires
        sorts_before(a, b),
        sorts_before(b, c),
    ensures
        sorts_before(a, c),
    decreases c.len(),
{
    if a.len() > 0 && a[0] == b[0] && b[0] == c[0] {
        lemma_sorts_transitive(a.drop_first(), b.drop_first(), c.drop_first());
    }
}

/// Of two different texts one stands before the other.
pub proof fn lemma_sorts_total(a: Seq<char>, b: Seq<char>)
    ensures
        a == b || sorts_before(a, b) || sorts_before(b, a),
    decreases a.len(),
{
    if a.len() == 0 || b.len() == 0 {
        if a.len() == b.len() {
            assert(a =~= b);
        }
    } else if a[0] == b[0] {
        lemma_sorts_total(a.drop_first(), b.drop_first());
        if a.drop_first() == b.drop_first() {
            assert(a =~= seq![a[0]] + a.drop_first());
            assert(b =~= seq![b[0]] + b.drop_first());
        }
    }
}

} // verus!
