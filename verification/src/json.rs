//! JSON documents.

use vstd::prelude::*;
use crate::text::same_text;

verus! {

/// A JSON number. A number with a fraction or an exponent, and one outside the
/// range of the integers, is held by the bits of its binary64 form.
#[derive(Debug, Clone, Copy, PartialEq, Eq, Structural)]
pub enum JsonNumber {
    Unsigned(u64),
    Negative(i64),
    Float(u64),
}

/// What a JSON document says.
#[verifier::ext_equal]
pub enum Json {
    Null,
    Bool(bool),
    Number(JsonNumber),
    Text(Seq<char>),
    Array(Seq<Json>),
    Object(Map<Seq<char>, Json>),
}

impl Json {
    /// The member of an object under a key.
    pub open spec fn field(self, key: Seq<char>) -> Option<Json> {
        match self {
            Json::Object(members) => if members.dom().contains(key) {
                Some(members[key])
            } else {
                None
            },
            _ => None,
        }
    }

    /// The items, if this is an array.
    pub open spec fn items(self) -> Option<Seq<Json>> {
        match self {
            Json::Array(items) => Some(items),
            _ => None,
        }
    }

    /// The text, if this is one.
    pub open spec fn string(self) -> Option<Seq<char>> {
        match self {
            Json::Text(s) => Some(s),
            _ => None,
        }
    }

    /// The truth value, if this is one.
    pub open spec fn truth(self) -> Option<bool> {
        match self {
            Json::Bool(b) => Some(b),
            _ => None,
        }
    }

    /// The number, if this is an integer that is not negative.
    pub open spec fn natural(self) -> Option<u64> {
        match self {
            Json::Number(JsonNumber::Unsigned(n)) => Some(n),
            _ => None,
        }
    }

    /// The items of the array that an object holds under a key.
    pub open spec fn field_items(self, key: Seq<char>) -> Option<Seq<Json>> {
        match self.field(key) {
            Some(v) => v.items(),
            None => None,
        }
    }

    /// The text that an object holds under a key.
    pub open spec fn field_string(self, key: Seq<char>) -> Option<Seq<char>> {
        match self.field(key) {
            Some(v) => v.string(),
            None => None,
        }
    }

    /// The truth value that an object holds under a key.
    pub open spec fn field_truth(self, key: Seq<char>) -> Option<bool> {
        match self.field(key) {
            Some(v) => v.truth(),
            None => None,
        }
    }

    /// The natural number that an object holds under a key.
    pub open spec fn field_natural(self, key: Seq<char>) -> Option<u64> {
        match self.field(key) {
            Some(v) => v.natural(),
            None => None,
        }
    }
}

/// A JSON document in memory. Where an object lists a key twice, the first
/// member counts.
#[derive(Debug)]
pub enum JsonValue {
    Null,
    Bool(bool),
    Number(JsonNumber),
    Text(String),
    Array(Vec<JsonValue>),
    Object(Vec<(String, JsonValue)>),
}

/// The members that a list of keys and values gives an object.
pub open spec fn members_of(entries: Seq<(String, JsonValue)>) -> Map<Seq<char>, Json>
    decreases entries,
{
    if entries.len() == 0 {
        Map::empty()
    } else {
        members_of(entries.subrange(1, entries.len() as int)).insert(
            entries[0].0@,
            entries[0].1.says(),
        )
    }
}

impl JsonValue {
    /// What the document says.
    pub open spec fn says(&self) -> Json
        decreases self,
    {
        match self {
            JsonValue::Null => Json::Null,
            JsonValue::Bool(b) => Json::Bool(*b),
            JsonValue::Number(n) => Json::Number(*n),
            JsonValue::Text(s) => Json::Text(s@),
            JsonValue::Array(list) => Json::Array(
                Seq::new(
                    list@.len(),
                    |i: int|
                        if 0 <= i < list@.len() {
                            list@[i].says()
                        } else {
                            Json::Null
                        },
                ),
            ),
            JsonValue::Object(entries) => Json::Object(members_of(entries@)),
        }
    }

    /// The member of an object under a key; nothing for anything but an object.
    pub fn get(&self, key: &str) -> (r: Option<&JsonValue>)
        ensures
            match r {
                Some(v) => self.says().field(key@) == Some(v.says()),
                None => self.says().field(key@) is None,
            },
    {
        match self {
            JsonValue::Object(entries) => {
                let mut i: usize = 0;
                assert(entries@.subrange(0, entries@.len() as int) =~= entries@);
                while i < entries.len()
                    invariant
                        i <= entries.len(),
                        *self == JsonValue::Object(*entries),
                        members_of(entries@).dom().contains(key@) == members_of(
                            entries@.subrange(i as int, entries@.len() as int),
                        ).dom().contains(key@),
                        members_of(entries@).dom().contains(key@) ==> members_of(entries@)[key@]
                            == members_of(
                            entries@.subrange(i as int, entries@.len() as int),
                        )[key@],
                    decreases entries.len() - i,
                {
                    let ghost rest = entries@.subrange(i as int, entries@.len() as int);
                    assert(rest.subrange(1, rest.len() as int) =~= entries@.subrange(
                        i + 1,
                        entries@.len() as int,
                    ));
                    if same_text(entries[i].0.as_str(), key) {
                        return Some(&entries[i].1);
                    }
                    i = i + 1;
                }
                None
            },
            _ => None,
        }
    }

    /// The items of an array.
    pub fn as_array(&self) -> (r: Option<&Vec<JsonValue>>)
        ensures
            match r {
                Some(list) => self.says().items() == Some(say_all(list@)),
                None => self.says().items() is None,
            },
    {
        match self {
            JsonValue::Array(list) => {
                assert(self.says()->Array_0 =~= say_all(list@));
                Some(list)
            },
            _ => None,
        }
    }

    /// The text of a string.
    pub fn as_str(&self) -> (r: Option<&String>)
        ensures
            match r {
                Some(s) => self.says().string() == Some(s@),
                None => self.says().string() is None,
            },
    {
        match self {
            JsonValue::Text(s) => Some(s),
            _ => None,
        }
    }

    /// The truth value of a boolean.
    pub fn as_bool(&self) -> (r: Option<bool>)
        ensures
            r == self.says().truth(),
    {
        match self {
            JsonValue::Bool(b) => Some(*b),
            _ => None,
        }
    }

    /// The value of an integer that is not negative.
    pub fn as_u64(&self) -> (r: Option<u64>)
        ensures
            r == self.says().natural(),
    {
        match self {
            JsonValue::Number(JsonNumber::Unsigned(n)) => Some(*n),
            _ => None,
        }
    }

    /// Whether this is `null`.
    pub fn is_null(&self) -> (r: bool)
        ensures
            r == (self.says() is Null),
    {
        match self {
            JsonValue::Null => true,
            _ => false,
        }
    }

    /// The items of the array that an object holds under a key.
    pub fn get_array(&self, key: &str) -> (r: Option<&Vec<JsonValue>>)
        ensures
            match r {
                Some(list) => self.says().field_items(key@) == Some(say_all(list@)),
                None => self.says().field_items(key@) is None,
            },
    {
        match self.get(key) {
            Some(v) => v.as_array(),
            None => None,
        }
    }

    /// The text that an object holds under a key.
    pub fn get_str(&self, key: &str) -> (r: Option<&String>)
        ensures
            match r {
                Some(s) => self.says().field_string(key@) == Some(s@),
                None => self.says().field_string(key@) is None,
            },
    {
        match self.get(key) {
            Some(v) => v.as_str(),
            None => None,
        }
    }

    /// The truth value that an object holds under a key.
    pub fn get_bool(&self, key: &str) -> (r: Option<bool>)
        ensures
            r == self.says().field_truth(key@),
    {
        match self.get(key) {
            Some(v) => v.as_bool(),
            None => None,
        }
    }

    /// The natural number that an object holds under a key.
    pub fn get_u64(&self, key: &str) -> (r: Option<u64>)
        ensures
            r == self.says().field_natural(key@),
    {
        match self.get(key) {
            Some(v) => v.as_u64(),
            None => None,
        }
    }

    /// A second document that says the same.
    pub fn duplicate(&self) -> (r: JsonValue)
        ensures
            r.says() == self.says(),
        decreases self,
    {
        match self {
            JsonValue::Null => JsonValue::Null,
            JsonValue::Bool(b) => JsonValue::Bool(*b),
            JsonValue::Number(n) => JsonValue::Number(*n),
            JsonValue::Text(s) => JsonValue::Text(s.clone()),
            JsonValue::Array(list) => {
                let mut copy: Vec<JsonValue> = Vec::new();
                let mut i: usize = 0;
                while i < list.len()
                    invariant
                        i <= list.len(),
                        *self == JsonValue::Array(*list),
                        copy.len() == i,
                        forall|k: int| 0 <= k < i ==> (#[trigger] copy@[k]).says() == list@[k].says(),
                    decreases list.len() - i,
                {
                    assert(decreases_to!(*self => self->Array_0@[i as int]));
                    copy.push(list[i].duplicate());
                    i = i + 1;
                }
                let r = JsonValue::Array(copy);
                assert(r.says()->Array_0 =~= self.says()->Array_0);
                r
            },
            JsonValue::Object(entries) => {
                let mut copy: Vec<(String, JsonValue)> = Vec::new();
                let mut i: usize = 0;
                while i < entries.len()
                    invariant
                        i <= entries.len(),
                        *self == JsonValue::Object(*entries),
                        copy.len() == i,
                        forall|k: int|
                            0 <= k < i ==> (#[trigger] copy@[k]).0@ == entries@[k].0@
                                && copy@[k].1.says() == entries@[k].1.says(),
                    decreases entries.len() - i,
                {
                    assert(decreases_to!(*self => self->Object_0@[i as int].1));
                    copy.push((entries[i].0.clone(), entries[i].1.duplicate()));
                    i = i + 1;
                }
                proof {
                    lemma_members_agree(copy@, entries@);
                }
                JsonValue::Object(copy)
            },
        }
    }
}

/// What the documents of a list say.
pub open spec fn say_all(list: Seq<JsonValue>) -> Seq<Json> {
    list.map_values(|v: JsonValue| v.says())
}

/// Entries that agree one by one give the same members.
proof fn lemma_members_agree(a: Seq<(String, JsonValue)>, b: Seq<(String, JsonValue)>)
    requires
        a.len() == b.len(),
        forall|k: int|
            0 <= k < a.len() ==> (#[trigger] a[k]).0@ == b[k].0@ && a[k].1.says() == b[k].1.says(),
    ensures
        members_of(a) == members_of(b),
    decreases a.len(),
{
    if a.len() > 0 {
        lemma_members_agree(
            a.subrange(1, a.len() as int),
            b.subrange(1, b.len() as int),
        );
    }
}

/// [`serde_json::Value`]: a document in the form that the parser gives it.
#[verifier::external_type_specification]
#[verifier::external_body]
pub struct ExValue(serde_json::Value);

/// [`serde_json::Number`]: a number in the form that the parser gives it.
#[verifier::external_type_specification]
#[verifier::external_body]
pub struct ExNumber(serde_json::Number);

/// What a parsed document says.
pub uninterp spec fn value_says(value: serde_json::Value) -> Json;

/// How deep the arrays and objects of a parsed document are nested.
pub uninterp spec fn value_depth(value: serde_json::Value) -> nat;

/// What a parsed number says.
pub uninterp spec fn number_says(number: serde_json::Number) -> JsonNumber;

/// What a text says as JSON, or the parser's message on why it is no JSON.
pub uninterp spec fn json_parsed(text: Seq<char>) -> Result<Json, Seq<char>>;

/// [`serde_json::Number::as_u64`]: the integer, if it is not negative.
pub assume_specification[ serde_json::Number::as_u64 ](number: &serde_json::Number) -> (r: Option<
    u64,
>)
    ensures
        r == match number_says(*number) {
            JsonNumber::Unsigned(n) => Some(n),
            _ => None,
        },
;

/// [`serde_json::Number::as_i64`]: the integer, if it is in range.
pub assume_specification[ serde_json::Number::as_i64 ](number: &serde_json::Number) -> (r: Option<
    i64,
>)
    ensures
        r == match number_says(*number) {
            JsonNumber::Unsigned(n) => if n <= i64::MAX {
                Some(n as i64)
            } else {
                None
            },
            JsonNumber::Negative(n) => Some(n),
            JsonNumber::Float(_) => None,
        },
;

/// [`serde_json::Number::as_f64`] of a number that is no integer: the bits of its
/// binary64 form.
#[verifier::external_body]
fn float_bits(number: &serde_json::Number) -> (r: u64)
    ensures
        number_says(*number) matches JsonNumber::Float(bits) ==> r == bits,
{
    number.as_f64().unwrap_or_default().to_bits()
}

/// [`serde_json::from_str`] into a [`serde_json::Value`]. The grammar of JSON and
/// the wording of the messages are left unsaid: the contract only says that the
/// outcome depends on the text alone.
#[verifier::external_body]
fn parse_value(text: &str) -> (r: Result<serde_json::Value, String>)
    ensures
        match r {
            Ok(value) => json_parsed(text@) == Ok::<Json, Seq<char>>(value_says(value)),
            Err(message) => json_parsed(text@) == Err::<Json, Seq<char>>(message@),
        },
{
    serde_json::from_str::<serde_json::Value>(text).map_err(|e| e.to_string())
}

/// The outermost layer of a parsed document.
enum Layer<'a> {
    Null,
    Bool(bool),
    Number(&'a serde_json::Number),
    Text(&'a String),
    Array(&'a Vec<serde_json::Value>),
    Object(Vec<(&'a String, &'a serde_json::Value)>),
}

/// The members that a list of keys and parsed values gives an object.
spec fn parsed_members(entries: Seq<(&String, &serde_json::Value)>) -> Map<Seq<char>, Json>
    decreases entries.len(),
{
    if entries.len() == 0 {
        Map::empty()
    } else {
        parsed_members(entries.subrange(1, entries.len() as int)).insert(
            entries[0].0@,
            value_says(*entries[0].1),
        )
    }
}

impl<'a> Layer<'a> {
    /// What the document says.
    spec fn says(self) -> Json {
        match self {
            Layer::Null => Json::Null,
            Layer::Bool(b) => Json::Bool(b),
            Layer::Number(n) => Json::Number(number_says(*n)),
            Layer::Text(s) => Json::Text(s@),
            Layer::Array(list) => Json::Array(
                list@.map_values(|v: serde_json::Value| value_says(v)),
            ),
            Layer::Object(entries) => Json::Object(parsed_members(entries@)),
        }
    }

    /// The documents inside are nested less deep.
    spec fn within(self, depth: nat) -> bool {
        match self {
            Layer::Array(list) => forall|i: int|
                0 <= i < list@.len() ==> value_depth(#[trigger] list@[i]) < depth,
            Layer::Object(entries) => forall|i: int|
                0 <= i < entries@.len() ==> value_depth(*(#[trigger] entries@[i]).1) < depth,
            _ => true,
        }
    }
}

/// The variants of [`serde_json::Value`]: what a document says goes by what it
/// holds, and what it holds is nested less deep than the document itself.
#[verifier::external_body]
fn outermost<'a>(value: &'a serde_json::Value) -> (r: Layer<'a>)
    ensures
        r.says() == value_says(*value),
        r.within(value_depth(*value)),
{
    match value {
        serde_json::Value::Null => Layer::Null,
        serde_json::Value::Bool(b) => Layer::Bool(*b),
        serde_json::Value::Number(n) => Layer::Number(n),
        serde_json::Value::String(s) => Layer::Text(s),
        serde_json::Value::Array(list) => Layer::Array(list),
        serde_json::Value::Object(members) => Layer::Object(members.iter().collect()),
    }
}

/// Entries that agree one by one give the same members.
proof fn lemma_parsed_members_agree(
    a: Seq<(String, JsonValue)>,
    b: Seq<(&String, &serde_json::Value)>,
)
    requires
        a.len() == b.len(),
        forall|k: int|
            0 <= k < a.len() ==> (#[trigger] a[k]).0@ == b[k].0@ && a[k].1.says() == value_says(
                *b[k].1,
            ),
    ensures
        members_of(a) == parsed_members(b),
    decreases a.len(),
{
    if a.len() > 0 {
        lemma_parsed_members_agree(
            a.subrange(1, a.len() as int),
            b.subrange(1, b.len() as int),
        );
    }
}

/// The document that a parsed one is.
fn from_value(value: &serde_json::Value) -> (r: JsonValue)
    ensures
        r.says() == value_says(*value),
    decreases value_depth(*value),
{
    match outermost(value) {
        Layer::Null => JsonValue::Null,
        Layer::Bool(b) => JsonValue::Bool(b),
        Layer::Number(n) => {
            match n.as_u64() {
                Some(u) => JsonValue::Number(JsonNumber::Unsigned(u)),
                None => match n.as_i64() {
                    Some(i) => JsonValue::Number(JsonNumber::Negative(i)),
                    None => JsonValue::Number(JsonNumber::Float(float_bits(n))),
                },
            }
        },
        Layer::Text(s) => JsonValue::Text(s.clone()),
        Layer::Array(list) => {
            let mut items: Vec<JsonValue> = Vec::new();
            let mut i: usize = 0;
            while i < list.len()
                invariant
                    i <= list.len(),
                    items.len() == i,
                    forall|k: int|
                        0 <= k < i ==> (#[trigger] items@[k]).says() == value_says(list@[k]),
                    forall|k: int|
                        0 <= k < list@.len() ==> value_depth(#[trigger] list@[k]) < value_depth(
                            *value,
                        ),
                decreases list.len() - i,
            {
                items.push(from_value(&list[i]));
                i = i + 1;
            }
            let r = JsonValue::Array(items);
            assert(r.says()->Array_0 =~= list@.map_values(|v: serde_json::Value| value_says(v)));
            r
        },
        Layer::Object(entries) => {
            let mut members: Vec<(String, JsonValue)> = Vec::new();
            let mut i: usize = 0;
            while i < entries.len()
                invariant
                    i <= entries.len(),
                    members.len() == i,
                    forall|k: int|
                        0 <= k < i ==> (#[trigger] members@[k]).0@ == entries@[k].0@
                            && members@[k].1.says() == value_says(*entries@[k].1),
                    forall|k: int|
                        0 <= k < entries@.len() ==> value_depth(*(#[trigger] entries@[k]).1)
                            < value_depth(*value),
                decreases entries.len() - i,
            {
                let entry = entries[i];
                members.push((entry.0.clone(), from_value(entry.1)));
                i = i + 1;
            }
            proof {
                lemma_parsed_members_agree(members@, entries@);
            }
            JsonValue::Object(members)
        },
    }
}

/// Parses a text as JSON.
pub fn parse_json(text: &str) -> (r: Result<JsonValue, String>)
    ensures
        match r {
            Ok(v) => json_parsed(text@) == Ok::<Json, Seq<char>>(v.says()),
            Err(message) => json_parsed(text@) == Err::<Json, Seq<char>>(message@),
        },
{
    match parse_value(text) {
        Ok(value) => Ok(from_value(&value)),
        Err(message) => Err(message),
    }
}

} // verus!
