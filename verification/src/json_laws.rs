//! What is read out of a JSON document, member by member.

use vstd::prelude::*;
use crate::json::{json_parsed, members_of, parse_json, say_all, Json, JsonNumber, JsonValue};

verus! {

/// An object has this value under a key.
pub open spec fn holds(page: Json, key: Seq<char>, value: Json) -> bool {
    page matches Json::Object(members) && members.dom().contains(key) && members[key] == value
}

/// An object has this text under a key.
pub open spec fn holds_text(page: Json, key: Seq<char>, text: Seq<char>) -> bool {
    holds(page, key, Json::Text(text))
}

/// An object has an array of these items under a key.
pub open spec fn holds_array(page: Json, key: Seq<char>, items: Seq<Json>) -> bool {
    holds(page, key, Json::Array(items))
}

/// Reading a member gives what the object has under the key, and nothing where it has
/// nothing of the kind: no other value is taken for a text, an array, a truth value or a
/// natural number.
pub proof fn law_members(page: Json, key: Seq<char>)
    ensures
        forall|v: Json| page.field(key) == Some(v) <==> holds(page, key, v),
        forall|items: Seq<Json>|
            page.field_items(key) == Some(items) <==> #[trigger] holds_array(page, key, items),
        forall|text: Seq<char>|
            page.field_string(key) == Some(text) <==> #[trigger] holds_text(page, key, text),
        forall|b: bool|
            page.field_truth(key) == Some(b) <==> #[trigger] holds(page, key, Json::Bool(b)),
        forall|n: u64|
            page.field_natural(key) == Some(n) <==> #[trigger] holds(
                page,
                key,
                Json::Number(JsonNumber::Unsigned(n)),
            ),
{
}

/// The methods of a document in memory read what the document says.
pub proof fn law_reading(
    page: JsonValue,
    key: &str,
    member: Option<&JsonValue>,
    items: Option<&Vec<JsonValue>>,
    text: Option<&String>,
    truth: Option<bool>,
    number: Option<u64>,
)
    requires
        call_ensures(JsonValue::get, (&page, key), member),
        call_ensures(JsonValue::get_array, (&page, key), items),
        call_ensures(JsonValue::get_str, (&page, key), text),
        call_ensures(JsonValue::get_bool, (&page, key), truth),
        call_ensures(JsonValue::get_u64, (&page, key), number),
    ensures
        member matches Some(v) ==> holds(page.says(), key@, v.says()),
        member is None ==> forall|v: Json| !holds(page.says(), key@, v),
        items matches Some(list) ==> holds_array(page.says(), key@, say_all(list@)),
        items is None ==> forall|list: Seq<Json>| !holds_array(page.says(), key@, list),
        text matches Some(s) ==> holds_text(page.says(), key@, s@),
        text is None ==> forall|s: Seq<char>| !holds_text(page.says(), key@, s),
        truth matches Some(b) ==> holds(page.says(), key@, Json::Bool(b)),
        truth is None ==> forall|b: bool| !#[trigger] holds(page.says(), key@, Json::Bool(b)),
        number matches Some(n) ==> holds(
            page.says(),
            key@,
            Json::Number(JsonNumber::Unsigned(n)),
        ),
        number is None ==> forall|n: u64|
            !#[trigger] holds(page.says(), key@, Json::Number(JsonNumber::Unsigned(n))),
{
}

/// A document in memory says what it holds: item by item for an array, and for an object
/// the first member under each key.
pub proof fn law_saying(list: Vec<JsonValue>, entries: Vec<(String, JsonValue)>, i: int)
    ensures
        JsonValue::Array(list).says() == Json::Array(
            Seq::new(list@.len(), |k: int| list@[k].says()),
        ),
        0 <= i < entries@.len() && (forall|k: int| 0 <= k < i ==> (#[trigger] entries@[k]).0@ != entries@[i].0@)
            ==> holds(JsonValue::Object(entries).says(), entries@[i].0@, entries@[i].1.says()),
        forall|key: Seq<char>, v: Json| #[trigger]
            holds(JsonValue::Object(entries).says(), key, v) ==> exists|k: int|
                0 <= k < entries@.len() && (#[trigger] entries@[k]).0@ == key && entries@[k].1.says()
                    == v,
{
    let said = JsonValue::Array(list).says();
    assert(said->Array_0 =~= Seq::new(list@.len(), |k: int| list@[k].says()));
    if 0 <= i < entries@.len() && (forall|k: int|
        0 <= k < i ==> (#[trigger] entries@[k]).0@ != entries@[i].0@) {
        lemma_first_member(entries@, i);
    }
    assert forall|key: Seq<char>, v: Json| #[trigger]
        holds(JsonValue::Object(entries).says(), key, v) implies exists|k: int|
        0 <= k < entries@.len() && (#[trigger] entries@[k]).0@ == key && entries@[k].1.says() == v by {
        lemma_some_member(entries@, key);
    }
}

proof fn lemma_first_member(entries: Seq<(String, JsonValue)>, i: int)
    requires
        0 <= i < entries.len(),
        forall|k: int| 0 <= k < i ==> (#[trigger] entries[k]).0@ != entries[i].0@,
    ensures
        members_of(entries).dom().contains(entries[i].0@),
        members_of(entries)[entries[i].0@] == entries[i].1.says(),
    decreases i,
{
    let rest = entries.subrange(1, entries.len() as int);
    if i > 0 {
        assert(rest[i - 1] == entries[i]);
        assert forall|k: int| 0 <= k < i - 1 implies (#[trigger] rest[k]).0@ != rest[i - 1].0@ by {
            assert(rest[k] == entries[k + 1]);
        }
        lemma_first_member(rest, i - 1);
        assert(entries[0].0@ != entries[i].0@);
    }
}

proof fn lemma_some_member(entries: Seq<(String, JsonValue)>, key: Seq<char>)
    requires
        members_of(entries).dom().contains(key),
    ensures
        exists|k: int|
            0 <= k < entries.len() && (#[trigger] entries[k]).0@ == key && entries[k].1.says()
                == members_of(entries)[key],
    decreases entries.len(),
{
    if entries.len() > 0 {
        let rest = entries.subrange(1, entries.len() as int);
        if entries[0].0@ != key {
            lemma_some_member(rest, key);
            let k = choose|k: int|
                0 <= k < rest.len() && (#[trigger] rest[k]).0@ == key && rest[k].1.says()
                    == members_of(rest)[key];
            assert(entries[k + 1] == rest[k]);
        }
    }
}

/// A document in memory is taken for what it says, and for nothing else.
pub proof fn law_kinds(
    page: JsonValue,
    items: Option<&Vec<JsonValue>>,
    text: Option<&String>,
    truth: Option<bool>,
    number: Option<u64>,
    null: bool,
    copy: JsonValue,
)
    requires
        call_ensures(JsonValue::as_array, (&page,), items),
        call_ensures(JsonValue::as_str, (&page,), text),
        call_ensures(JsonValue::as_bool, (&page,), truth),
        call_ensures(JsonValue::as_u64, (&page,), number),
        call_ensures(JsonValue::is_null, (&page,), null),
        call_ensures(JsonValue::duplicate, (&page,), copy),
    ensures
        match page.says() {
            Json::Array(list) => items is Some && say_all(items->0@) == list,
            _ => items is None,
        },
        match page.says() {
            Json::Text(s) => text is Some && text->0@ == s,
            _ => text is None,
        },
        match page.says() {
            Json::Bool(b) => truth == Some(b),
            _ => truth is None,
        },
        match page.says() {
            Json::Number(JsonNumber::Unsigned(n)) => number == Some(n),
            _ => number is None,
        },
        null <==> page.says() == Json::Null,
        copy.says() == page.says(),
{
}

/// Parsing a text gives what the text says, or the reason why it says nothing.
pub proof fn law_parsing(text: &str, r: Result<JsonValue, String>)
    requires
        call_ensures(parse_json, (text,), r),
    ensures
        r matches Ok(page) ==> json_parsed(text@) == Ok::<Json, Seq<char>>(page.says()),
        r matches Err(reason) ==> json_parsed(text@) == Err::<Json, Seq<char>>(reason@),
{
}

} // verus!
