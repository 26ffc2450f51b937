//! JSON documents: the values that the endpoint sends and receives.
use crate::text::same_text;
use vstd::prelude::*;

verus! {

/// The `serde_json::Value` that a document is parsed into.
#[verifier::external_type_specification]
#[verifier::external_body]
pub struct ExValue(serde_json::Value);

/// The `serde_json::Error` of a text that is no document.
#[verifier::external_type_specification]
#[verifier::external_body]
pub struct ExJsonError(serde_json::Error);

/// A number of a document.
#[derive(Clone, Copy, PartialEq, Eq, Structural, Debug)]
pub enum JsonNumber {
    /// An integer that is not negative.
    Unsigned(u64),
    /// A negative integer.
    Negative(i64),
    /// A single-precision number, by its IEEE 754 bits.
    Single(u32),
    /// Any other number; its value plays no part.
    Other,
}

/// A JSON value.
#[derive(Debug, PartialEq, Eq)]
pub enum Json {
    Null,
    Bool(bool),
    Number(JsonNumber),
    Text(String),
    Array(Vec<Json>),
    Object(Vec<(String, Json)>),
}

/// What a JSON value is.
pub enum JsonModel {
    Null,
    Bool(bool),
    Number(JsonNumber),
    Text(Seq<char>),
    Array(Seq<JsonModel>),
    Object(Seq<(Seq<char>, JsonModel)>),
}

/// The outermost layer of a parsed value.
enum JsonLayer {
    Null,
    Bool(bool),
    Number(Option<u64>, Option<i64>),
    Text(String),
    Array(Vec<serde_json::Value>),
    Object(Vec<(String, serde_json::Value)>),
}

/// The value that `serde_json` read.
pub uninterp spec fn json_content(v: serde_json::Value) -> JsonModel;

/// What `serde_json::from_str` reads in a text, where it reads a document.
pub uninterp spec fn json_document(text: Seq<char>) -> Option<JsonModel>;

/// What `serde_json::from_slice` reads in bytes, where it reads a document.
pub uninterp spec fn json_bytes_document(bytes: Seq<u8>) -> Option<JsonModel>;

/// The number that answers as the given unsigned and signed integer.
pub open spec fn number_of(unsigned: Option<u64>, signed: Option<i64>) -> JsonNumber {
    match (unsigned, signed) {
        (Some(n), _) => JsonNumber::Unsigned(n),
        (None, Some(n)) => JsonNumber::Negative(n),
        (None, None) => JsonNumber::Other,
    }
}

spec fn layer_model(layer: JsonLayer) -> JsonModel {
    match layer {
        JsonLayer::Null => JsonModel::Null,
        JsonLayer::Bool(b) => JsonModel::Bool(b),
        JsonLayer::Number(unsigned, signed) => JsonModel::Number(number_of(unsigned, signed)),
        JsonLayer::Text(t) => JsonModel::Text(t@),
        JsonLayer::Array(items) => JsonModel::Array(
            items@.map_values(|v: serde_json::Value| json_content(v)),
        ),
        JsonLayer::Object(entries) => JsonModel::Object(
            entries@.map_values(|e: (String, serde_json::Value)| (e.0@, json_content(e.1))),
        ),
    }
}

/// The first value that stands under `key`.
pub open spec fn value_under(entries: Seq<(Seq<char>, JsonModel)>, key: Seq<char>) -> Option<
    JsonModel,
>
    decreases entries.len(),
{
    if entries.len() == 0 {
        None
    } else if entries[0].0 == key {
        Some(entries[0].1)
    } else {
        value_under(entries.skip(1), key)
    }
}

impl JsonModel {
    /// The value under `key`, where this is an object that has the key.
    pub open spec fn member(self, key: Seq<char>) -> Option<JsonModel> {
        match self {
            JsonModel::Object(entries) => value_under(entries, key),
            _ => None,
        }
    }

    /// The item at `index`, where this is an array that has one there.
    pub open spec fn item(self, index: nat) -> Option<JsonModel> {
        match self {
            JsonModel::Array(items) => if index < items.len() {
                Some(items[index as int])
            } else {
                None
            },
            _ => None,
        }
    }

    /// The unsigned integer that this is, where it is one.
    pub open spec fn unsigned(self) -> Option<u64> {
        match self {
            JsonModel::Number(JsonNumber::Unsigned(n)) => Some(n),
            _ => None,
        }
    }

    /// The text that this is, where it is one.
    pub open spec fn text(self) -> Option<Seq<char>> {
        match self {
            JsonModel::Text(t) => Some(t),
            _ => None,
        }
    }

    /// The items of the array that this is, where it is one.
    pub open spec fn items(self) -> Option<Seq<JsonModel>> {
        match self {
            JsonModel::Array(items) => Some(items),
            _ => None,
        }
    }
}

impl Json {
    /// What the value is.
    pub open spec fn model(self) -> JsonModel
        decreases self,
    {
        match self {
            Json::Null => JsonModel::Null,
            Json::Bool(b) => JsonModel::Bool(b),
            Json::Number(n) => JsonModel::Number(n),
            Json::Text(t) => JsonModel::Text(t@),
            Json::Array(items) => JsonModel::Array(
                Seq::new(
                    items@.len(),
                    |i: int|
                        if 0 <= i < items@.len() {
                            items@[i].model()
                        } else {
                            JsonModel::Null
                        },
                ),
            ),
            Json::Object(entries) => JsonModel::Object(
                Seq::new(
                    entries@.len(),
                    |i: int|
                        if 0 <= i < entries@.len() {
                            (entries@[i].0@, entries@[i].1.model())
                        } else {
                            (Seq::empty(), JsonModel::Null)
                        },
                ),
            ),
        }
    }

    /// The value under `key`, where this is an object that has the key.
    pub fn get(&self, key: &str) -> (r: Option<&Json>)
        ensures
            r is Some <==> self.model().member(key@) is Some,
            r matches Some(v) ==> self.model().member(key@) == Some(v.model()),
    {
        match self {
            Json::Object(entries) => {
                let ghost all = self.model()->Object_0;
                let mut i: usize = 0;
                assert(all.skip(0) =~= all);
                while i < entries.len()
                    invariant
                        i <= entries@.len(),
                        all.len() == entries@.len(),
                        forall|k: int|
                            0 <= k < all.len() ==> #[trigger] all[k] == (
                                entries@[k].0@,
                                entries@[k].1.model(),
                            ),
                        self.model().member(key@) == value_under(all.skip(i as int), key@),
                    decreases entries@.len() - i,
                {
                    assert(all.skip(i as int)[0] == all[i as int]);
                    if same_text(entries[i].0.as_str(), key) {
                        return Some(&entries[i].1);
                    }
                    assert(all.skip(i as int).skip(1) =~= all.skip(i + 1));
                    i = i + 1;
                }
                None
            },
            _ => None,
        }
    }

    /// The item at `index`, where this is an array that has one there.
    pub fn at(&self, index: usize) -> (r: Option<&Json>)
        ensures
            r is Some <==> self.model().item(index as nat) is Some,
            r matches Some(v) ==> self.model().item(index as nat) == Some(v.model()),
    {
        match self {
            Json::Array(items) => if index < items.len() {
                Some(&items[index])
            } else {
                None
            },
            _ => None,
        }
    }

    /// The unsigned integer that this is, where it is one.
    pub fn as_u64(&self) -> (r: Option<u64>)
        ensures
            r == self.model().unsigned(),
    {
        match self {
            Json::Number(JsonNumber::Unsigned(n)) => Some(*n),
            _ => None,
        }
    }

    /// The text that this is, where it is one.
    pub fn as_str(&self) -> (r: Option<&str>)
        ensures
            r is Some <==> self.model().text() is Some,
            r matches Some(t) ==> self.model().text() == Some(t@),
    {
        match self {
            Json::Text(t) => Some(t.as_str()),
            _ => None,
        }
    }

    /// The items of the array that this is, where it is one.
    pub fn as_array(&self) -> (r: Option<&Vec<Json>>)
        ensures
            r is Some <==> self.model().items() is Some,
            r matches Some(list) ==> {
                &&& self.model().items() == Some(self.model()->Array_0)
                &&& list@.len() == self.model()->Array_0.len()
                &&& forall|i: int|
                    0 <= i < list@.len() ==> (#[trigger] list@[i]).model()
                        == self.model()->Array_0[i]
            },
    {
        match self {
            Json::Array(items) => Some(items),
            _ => None,
        }
    }
}

/// What each entry of an object is.
pub open spec fn entry_models(entries: Seq<(String, Json)>) -> Seq<(Seq<char>, JsonModel)> {
    entries.map_values(|e: (String, Json)| (e.0@, e.1.model()))
}

/// An object of the given entries.
pub fn object(entries: Vec<(String, Json)>) -> (r: Json)
    ensures
        r.model() == JsonModel::Object(entry_models(entries@)),
{
    let r = Json::Object(entries);
    assert(r.model()->Object_0 =~= entry_models(entries@));
    r
}

/// An array of the given items.
pub fn array(items: Vec<Json>) -> (r: Json)
    ensures
        r.model() == JsonModel::Array(items@.map_values(|v: Json| v.model())),
{
    let r = Json::Array(items);
    assert(r.model()->Array_0 =~= items@.map_values(|v: Json| v.model()));
    r
}

/// Calls `serde_json::from_str` for a `serde_json::Value`: the text is a document or it
/// is not, and the value that comes back depends on the text alone.
#[verifier::external_body]
fn parse_text(text: &str) -> (r: Result<serde_json::Value, serde_json::Error>)
    ensures
        r is Ok <==> json_document(text@) is Some,
        r matches Ok(v) ==> json_document(text@) == Some(json_content(v)),
{
    serde_json::from_str(text)
}

/// Calls `serde_json::from_slice` for a `serde_json::Value`: the bytes are a document or
/// they are not, and the value that comes back depends on the bytes alone.
#[verifier::external_body]
fn parse_bytes(bytes: &[u8]) -> (r: Result<serde_json::Value, serde_json::Error>)
    ensures
        r is Ok <==> json_bytes_document(bytes@) is Some,
        r matches Ok(v) ==> json_bytes_document(bytes@) == Some(json_content(v)),
{
    serde_json::from_slice(bytes)
}

/// Takes a `serde_json::Value` apart by its variants. The content of an array is that of
/// its items in their order, the content of an object that of its entries in the order in
/// which `serde_json::Map` yields them. `Number::as_u64` and `Number::as_i64` say which
/// integer a number is.
#[verifier::external_body]
fn layer_of(v: serde_json::Value) -> (r: JsonLayer)
    ensures
        layer_model(r) == json_content(v),
{
    match v {
        serde_json::Value::Null => JsonLayer::Null,
        serde_json::Value::Bool(b) => JsonLayer::Bool(b),
        serde_json::Value::Number(n) => JsonLayer::Number(n.as_u64(), n.as_i64()),
        serde_json::Value::String(s) => JsonLayer::Text(s),
        serde_json::Value::Array(items) => JsonLayer::Array(items),
        serde_json::Value::Object(map) => JsonLayer::Object(map.into_iter().collect()),
    }
}

/// The library's value for a parsed one.
fn from_value(v: serde_json::Value) -> (r: Json)
    ensures
        r.model() == json_content(v),
    decreases json_content(v),
{
    match layer_of(v) {
        JsonLayer::Null => Json::Null,
        JsonLayer::Bool(b) => Json::Bool(b),
        JsonLayer::Number(unsigned, signed) => match (unsigned, signed) {
            (Some(n), _) => Json::Number(JsonNumber::Unsigned(n)),
            (None, Some(n)) => Json::Number(JsonNumber::Negative(n)),
            (None, None) => Json::Number(JsonNumber::Other),
        },
        JsonLayer::Text(t) => Json::Text(t),
        JsonLayer::Array(items) => {
            let ghost all = items@;
            let ghost content = json_content(v);
            let mut out: Vec<Json> = Vec::new();
            for item in it: items
                invariant
                    it.seq() == all,
                    content == json_content(v),
                    content == JsonModel::Array(
                        all.map_values(|v: serde_json::Value| json_content(v)),
                    ),
                    out@.len() == it.index(),
                    forall|i: int|
                        0 <= i < out@.len() ==> (#[trigger] out@[i]).model() == json_content(
                            all[i],
                        ),
            {
                assert(content->Array_0[it.index() as int] == json_content(item));
                out.push(from_value(item));
            }
            let r = Json::Array(out);
            assert(r.model()->Array_0 =~= content->Array_0);
            r
        },
        JsonLayer::Object(entries) => {
            let ghost all = entries@;
            let ghost content = json_content(v);
            let mut out: Vec<(String, Json)> = Vec::new();
            for entry in it: entries
                invariant
                    it.seq() == all,
                    content == json_content(v),
                    content == JsonModel::Object(
                        all.map_values(
                            |e: (String, serde_json::Value)| (e.0@, json_content(e.1)),
                        ),
                    ),
                    out@.len() == it.index(),
                    forall|i: int|
                        0 <= i < out@.len() ==> (#[trigger] out@[i]).0@ == all[i].0@
                            && out@[i].1.model() == json_content(all[i].1),
            {
                assert(content->Object_0[it.index() as int].1 == json_content(entry.1));
                out.push((entry.0, from_value(entry.1)));
            }
            let r = Json::Object(out);
            assert(r.model()->Object_0 =~= content->Object_0);
            r
        },
    }
}

/// The document that `text` is, where it is one.
pub fn parse_json(text: &str) -> (r: Option<Json>)
    ensures
        r is Some <==> json_document(text@) is Some,
        r matches Some(doc) ==> json_document(text@) == Some(doc.model()),
{
    match parse_text(text) {
        Ok(v) => Some(from_value(v)),
        Err(_) => None,
    }
}

/// The document that `bytes` are, where they are one.
pub fn parse_json_bytes(bytes: &[u8]) -> (r: Option<Json>)
    ensures
        r is Some <==> json_bytes_document(bytes@) is Some,
        r matches Some(doc) ==> json_bytes_document(bytes@) == Some(doc.model()),
{
    match parse_bytes(bytes) {
        Ok(v) => Some(from_value(v)),
        Err(_) => None,
    }
}

/// An object answers for a key with the first value that stands under it, whatever other entries
/// it has, and with nothing where no entry has the key.
pub proof fn law_member_is_first_under_key(
    entries: Seq<(Seq<char>, JsonModel)>,
    key: Seq<char>,
    i: int,
)
    ensures
        0 <= i < entries.len() && entries[i].0 == key && (forall|j: int|
            0 <= j < i ==> (#[trigger] entries[j]).0 != key) ==> JsonModel::Object(entries).member(
            key,
        ) == Some(entries[i].1),
        JsonModel::Object(entries).member(key) is None <==> forall|j: int|
            0 <= j < entries.len() ==> (#[trigger] entries[j]).0 != key,
    decreases entries.len(),
{
    if entries.len() > 0 {
        let rest = entries.skip(1);
        law_member_is_first_under_key(rest, key, i - 1);
        assert forall|j: int| 0 <= j < rest.len() implies #[trigger] rest[j] == entries[j + 1] by {}
        if entries[0].0 != key {
            if forall|j: int| 0 <= j < rest.len() ==> (#[trigger] rest[j]).0 != key {
                assert forall|j: int| 0 <= j < entries.len() implies (#[trigger] entries[j]).0
                    != key by {
                    if j > 0 {
                        assert(rest[j - 1] == entries[j]);
                    }
                }
            }
        }
    }
}

/// Values answer by their kind: arrays by position, numbers and texts by what they are, and every
/// other value with nothing.
pub proof fn law_values_answer_by_kind(
    items: Seq<JsonModel>,
    index: nat,
    n: u64,
    m: i64,
    text: Seq<char>,
    other: JsonModel,
    key: Seq<char>,
)
    ensures
        index < items.len() ==> JsonModel::Array(items).item(index) == Some(items[index as int]),
        index >= items.len() ==> JsonModel::Array(items).item(index) is None,
        JsonModel::Array(items).items() == Some(items),
        JsonModel::Number(JsonNumber::Unsigned(n)).unsigned() == Some(n),
        JsonModel::Number(JsonNumber::Negative(m)).unsigned() is None,
        JsonModel::Text(text).text() == Some(text),
        !(other is Object) ==> other.member(key) is None,
        !(other is Array) ==> other.item(index) is None && other.items() is None,
        !(other is Number) ==> other.unsigned() is None,
        !(other is Text) ==> other.text() is None,
        number_of(Some(n), Some(m)) == JsonNumber::Unsigned(n),
        number_of(None, Some(m)) == JsonNumber::Negative(m),
{
}

/// A value of the library says what it holds: every item of an array in its place, and every
/// entry of an object with its key.
pub proof fn law_value_says_what_it_holds(
    text: String,
    items: Vec<Json>,
    entries: Vec<(String, Json)>,
    i: int,
)
    ensures
        Json::Text(text).model() == JsonModel::Text(text@),
        Json::Array(items).model()->Array_0.len() == items@.len(),
        0 <= i < items@.len() ==> Json::Array(items).model()->Array_0[i] == items@[i].model(),
        Json::Object(entries).model()->Object_0.len() == entries@.len(),
        0 <= i < entries@.len() ==> Json::Object(entries).model()->Object_0[i] == (
            entries@[i].0@,
            entries@[i].1.model(),
        ),
        entry_models(entries@) == Json::Object(entries).model()->Object_0,
{
    assert(entry_models(entries@) =~= Json::Object(entries).model()->Object_0);
}

} // verus!
