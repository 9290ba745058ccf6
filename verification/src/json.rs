//! JSON documents as the relay reads and writes them.
//!
//! Texts are read and written by `serde_json`. Between the two the relay works
//! on a tree of its own, [`Json`], whose mathematical content is a
//! [`JsonValue`].

use vstd::prelude::*;

verus! {

/// The mathematical content of a JSON number.
pub enum NumberValue {
    /// A number written without fraction or exponent.
    Integer(int),
    /// Any other number, by the text that `serde_json` writes for it.
    Real(Seq<char>),
}

impl NumberValue {
    /// The number as a 64-bit signed integer, where it is an integer in that
    /// range.
    pub open spec fn as_i64(self) -> Option<i64> {
        match self {
            NumberValue::Integer(i) => if i64::MIN <= i <= i64::MAX {
                Some(i as i64)
            } else {
                None
            },
            NumberValue::Real(_) => None,
        }
    }
}

/// A JSON number.
#[derive(Clone, Debug, PartialEq, Eq)]
pub enum JsonNumber {
    /// A number written without fraction or exponent. `serde_json` reads such
    /// a number as an integer where it lies between -2^63 and 2^64 - 1, and
    /// writes `null` for an integer outside that range.
    Integer(i128),
    /// Any other number, held as the text that `serde_json` writes for it. A
    /// text that is no JSON number is written as `null`.
    Real(String),
}

impl View for JsonNumber {
    type V = NumberValue;

    open spec fn view(&self) -> NumberValue {
        match self {
            JsonNumber::Integer(i) => NumberValue::Integer(*i as int),
            JsonNumber::Real(s) => NumberValue::Real(s@),
        }
    }
}

impl JsonNumber {
    /// The number as a 64-bit signed integer, where it is an integer in that
    /// range.
    pub fn as_i64(&self) -> (r: Option<i64>)
        ensures
            r == self@.as_i64(),
    {
        match self {
            JsonNumber::Integer(i) => {
                if -9223372036854775808i128 <= *i && *i <= 9223372036854775807i128 {
                    Some(*i as i64)
                } else {
                    None
                }
            },
            JsonNumber::Real(_) => None,
        }
    }

    /// The JSON number that stands for a 64-bit signed integer.
    pub fn from_i64(i: i64) -> (r: JsonNumber)
        ensures
            r@ == NumberValue::Integer(i as int),
    {
        JsonNumber::Integer(i as i128)
    }

    /// A second copy of the number.
    pub fn duplicate(&self) -> (r: JsonNumber)
        ensures
            r@ == self@,
    {
        match self {
            JsonNumber::Integer(i) => JsonNumber::Integer(*i),
            JsonNumber::Real(s) => JsonNumber::Real(s.clone()),
        }
    }
}

/// The mathematical content of a JSON document. The fields of an object are
/// kept in the order in which they are written.
pub enum JsonValue {
    Null,
    Bool(bool),
    Number(NumberValue),
    Text(Seq<char>),
    Array(Seq<JsonValue>),
    Object(Seq<(Seq<char>, JsonValue)>),
}

/// The value that a sequence of fields gives to a key: that of the last field
/// written under the key.
pub open spec fn lookup(fields: Seq<(Seq<char>, JsonValue)>, key: Seq<char>) -> Option<JsonValue>
    decreases fields.len(),
{
    if fields.len() == 0 {
        None
    } else if fields.last().0 == key {
        Some(fields.last().1)
    } else {
        lookup(fields.drop_last(), key)
    }
}

/// A field that no later field repeats gives its key its value.
pub proof fn lemma_lookup_at(fields: Seq<(Seq<char>, JsonValue)>, key: Seq<char>, i: int)
    requires
        0 <= i < fields.len(),
        fields[i].0 == key,
        forall|k: int| i < k < fields.len() ==> (#[trigger] fields[k]).0 != key,
    ensures
        lookup(fields, key) == Some(fields[i].1),
    decreases fields.len(),
{
    if i < fields.len() - 1 {
        assert(fields.last() == fields[fields.len() - 1]);
        lemma_lookup_at(fields.drop_last(), key, i);
    }
}

/// A key that no field is written under has no value.
pub proof fn lemma_lookup_absent(fields: Seq<(Seq<char>, JsonValue)>, key: Seq<char>)
    requires
        forall|k: int| 0 <= k < fields.len() ==> (#[trigger] fields[k]).0 != key,
    ensures
        lookup(fields, key) is None,
    decreases fields.len(),
{
    if fields.len() > 0 {
        assert(fields.last() == fields[fields.len() - 1]);
        lemma_lookup_absent(fields.drop_last(), key);
    }
}

impl JsonValue {
    /// The value of the field `key`, where this is an object that has one.
    pub open spec fn field(self, key: Seq<char>) -> Option<JsonValue> {
        match self {
            JsonValue::Object(fields) => lookup(fields, key),
            _ => None,
        }
    }

    /// The element at `index`, where this is an array that has one.
    pub open spec fn item(self, index: int) -> Option<JsonValue> {
        match self {
            JsonValue::Array(items) => if 0 <= index < items.len() {
                Some(items[index])
            } else {
                None
            },
            _ => None,
        }
    }

    /// The characters of the field `key`, where it is a string.
    pub open spec fn text_field(self, key: Seq<char>) -> Option<Seq<char>> {
        match self.field(key) {
            Some(JsonValue::Text(s)) => Some(s),
            _ => None,
        }
    }

    /// The field `key`, where it is a number.
    pub open spec fn number_field(self, key: Seq<char>) -> Option<NumberValue> {
        match self.field(key) {
            Some(JsonValue::Number(n)) => Some(n),
            _ => None,
        }
    }

    /// The field `key`, where it is an integer that fits 64 signed bits.
    pub open spec fn integer_field(self, key: Seq<char>) -> Option<i64> {
        match self.field(key) {
            Some(JsonValue::Number(n)) => n.as_i64(),
            _ => None,
        }
    }
}

/// A JSON document held in memory.
#[derive(Debug, PartialEq, Eq)]
pub enum Json {
    Null,
    Bool(bool),
    Number(JsonNumber),
    Text(String),
    Array(Vec<Json>),
    Object(Vec<(String, Json)>),
}

impl Json {
    /// The mathematical content of the document.
    pub open spec fn content(self) -> JsonValue
        decreases self,
    {
        match self {
            Json::Null => JsonValue::Null,
            Json::Bool(b) => JsonValue::Bool(b),
            Json::Number(n) => JsonValue::Number(n@),
            Json::Text(s) => JsonValue::Text(s@),
            Json::Array(items) => JsonValue::Array(
                Seq::new(
                    items@.len(),
                    |i: int|
                        if 0 <= i < items@.len() {
                            items@[i].content()
                        } else {
                            JsonValue::Null
                        },
                ),
            ),
            Json::Object(fields) => JsonValue::Object(
                Seq::new(
                    fields@.len(),
                    |i: int|
                        if 0 <= i < fields@.len() {
                            (fields@[i].0@, fields@[i].1.content())
                        } else {
                            (Seq::empty(), JsonValue::Null)
                        },
                ),
            ),
        }
    }
}

impl View for Json {
    type V = JsonValue;

    open spec fn view(&self) -> JsonValue {
        self.content()
    }
}

/// The view of an object has the views of its fields, in their order.
pub proof fn lemma_object_view(doc: Json)
    requires
        doc is Object,
    ensures
        doc@ is Object,
        doc@->Object_0.len() == doc->Object_0@.len(),
        forall|k: int|
            0 <= k < doc->Object_0@.len() ==> #[trigger] doc@->Object_0[k] == (
                doc->Object_0@[k].0@,
                doc->Object_0@[k].1@,
            ),
{
    match doc {
        Json::Object(fields) => {
            let t = doc.content()->Object_0;
            assert(t.len() == fields@.len());
        },
        _ => {},
    }
}

/// The view of an array has the views of its elements, in their order.
pub proof fn lemma_array_view(doc: Json)
    requires
        doc is Array,
    ensures
        doc@ is Array,
        doc@->Array_0.len() == doc->Array_0@.len(),
        forall|k: int|
            0 <= k < doc->Array_0@.len() ==> #[trigger] doc@->Array_0[k] == doc->Array_0@[k]@,
{
}

/// The place of the last field written under `key`, where there is one.
fn field_index(fields: &Vec<(String, Json)>, key: &str) -> (r: Option<usize>)
    ensures
        r matches Some(i) ==> i < fields@.len() && fields@[i as int].0@ == key@,
        r matches Some(i) ==> forall|k: int| i < k < fields@.len() ==> fields@[k].0@ != key@,
        r is None ==> forall|k: int| 0 <= k < fields@.len() ==> fields@[k].0@ != key@,
{
    let wanted = String::from_str(key);
    let mut i: usize = fields.len();
    while i > 0
        invariant
            i <= fields@.len(),
            wanted@ == key@,
            forall|k: int| i <= k < fields@.len() ==> fields@[k].0@ != key@,
        decreases i,
    {
        i = i - 1;
        if fields[i].0 == wanted {
            return Some(i);
        }
    }
    None
}

impl Json {
    /// The value of the field `key`, where this is an object that has one.
    /// Where a key is written more than once, the last field counts.
    pub fn field(&self, key: &str) -> (r: Option<&Json>)
        ensures
            r is Some <==> self@.field(key@) is Some,
            r matches Some(j) ==> self@.field(key@) == Some(j@),
    {
        match self {
            Json::Object(fields) => {
                proof {
                    lemma_object_view(*self);
                }
                match field_index(fields, key) {
                    Some(i) => {
                        proof {
                            lemma_lookup_at(self@->Object_0, key@, i as int);
                        }
                        Some(&fields[i].1)
                    },
                    None => {
                        proof {
                            lemma_lookup_absent(self@->Object_0, key@);
                        }
                        None
                    },
                }
            },
            _ => None,
        }
    }

    /// The value of the field `key`, taken out of the document.
    pub fn into_field(self, key: &str) -> (r: Option<Json>)
        ensures
            r is Some <==> self@.field(key@) is Some,
            r matches Some(j) ==> self@.field(key@) == Some(j@),
    {
        proof {
            if self is Object {
                lemma_object_view(self);
            }
        }
        let ghost all = self@;
        match self {
            Json::Object(mut fields) => {
                match field_index(&fields, key) {
                    Some(i) => {
                        proof {
                            lemma_lookup_at(all->Object_0, key@, i as int);
                        }
                        let taken = fields.swap_remove(i);
                        Some(taken.1)
                    },
                    None => {
                        proof {
                            lemma_lookup_absent(all->Object_0, key@);
                        }
                        None
                    },
                }
            },
            _ => None,
        }
    }

    /// The element at `index`, taken out of the document.
    pub fn into_item(self, index: usize) -> (r: Option<Json>)
        ensures
            r is Some <==> self@.item(index as int) is Some,
            r matches Some(j) ==> self@.item(index as int) == Some(j@),
    {
        proof {
            if self is Array {
                lemma_array_view(self);
            }
        }
        match self {
            Json::Array(mut items) => {
                if index < items.len() {
                    Some(items.swap_remove(index))
                } else {
                    None
                }
            },
            _ => None,
        }
    }

    /// The element at `index`, where this is an array that has one.
    pub fn item(&self, index: usize) -> (r: Option<&Json>)
        ensures
            r is Some <==> self@.item(index as int) is Some,
            r matches Some(j) ==> self@.item(index as int) == Some(j@),
    {
        match self {
            Json::Array(items) => {
                proof {
                    lemma_array_view(*self);
                }
                if index < items.len() {
                    Some(&items[index])
                } else {
                    None
                }
            },
            _ => None,
        }
    }

    /// The characters of the field `key`, where it is a string.
    pub fn text_field(&self, key: &str) -> (r: Option<String>)
        ensures
            r is Some <==> self@.text_field(key@) is Some,
            r matches Some(s) ==> self@.text_field(key@) == Some(s@),
    {
        match self.field(key) {
            Some(Json::Text(s)) => Some(s.clone()),
            _ => None,
        }
    }

    /// The field `key`, where it is a number.
    pub fn number_field(&self, key: &str) -> (r: Option<JsonNumber>)
        ensures
            r is Some <==> self@.number_field(key@) is Some,
            r matches Some(n) ==> self@.number_field(key@) == Some(n@),
    {
        match self.field(key) {
            Some(Json::Number(n)) => Some(n.duplicate()),
            _ => None,
        }
    }

    /// The field `key`, where it is an integer that fits 64 signed bits.
    pub fn integer_field(&self, key: &str) -> (r: Option<i64>)
        ensures
            r == self@.integer_field(key@),
    {
        match self.field(key) {
            Some(Json::Number(n)) => n.as_i64(),
            _ => None,
        }
    }
}

/// What `serde_json` reads from a text: the document, or nothing where the
/// text is not JSON.
pub uninterp spec fn parsed_json(text: Seq<char>) -> Option<JsonValue>;

/// The compact text that `serde_json` writes for a document.
pub uninterp spec fn json_text(value: JsonValue) -> Seq<char>;

/// `serde_json`'s document tree, opaque to the proofs.
#[verifier::external_type_specification]
#[verifier::external_body]
pub struct ExValue(serde_json::Value);

/// Converts a `serde_json::Value` into a [`Json`], variant by variant: a
/// number through `Number::as_i128` where it is an integer and through its
/// `to_string` where it is not, the fields of an object in the order in which
/// `serde_json` walks them.
#[verifier::external_body]
fn json_from_value(value: &serde_json::Value) -> Json {
    match value {
        serde_json::Value::Null => Json::Null,
        serde_json::Value::Bool(b) => Json::Bool(*b),
        serde_json::Value::Number(n) => Json::Number(
            n.as_i128().map_or_else(|| JsonNumber::Real(n.to_string()), JsonNumber::Integer),
        ),
        serde_json::Value::String(s) => Json::Text(s.clone()),
        serde_json::Value::Array(a) => Json::Array(a.iter().map(json_from_value).collect()),
        serde_json::Value::Object(o) => Json::Object(
            o.iter().map(|(k, v)| (k.clone(), json_from_value(v))).collect(),
        ),
    }
}

/// Converts a [`Json`] into a `serde_json::Value`, variant by variant: an
/// integer through `Number::from_i128`, the text of another number through
/// `serde_json::from_str`, and what `serde_json` holds no number for as
/// `Value::Null`. The fields of an object are inserted in their order, so the
/// last one written under a key stays.
#[verifier::external_body]
fn json_to_value(doc: &Json) -> serde_json::Value {
    match doc {
        Json::Null => serde_json::Value::Null,
        Json::Bool(b) => serde_json::Value::Bool(*b),
        Json::Number(JsonNumber::Integer(i)) => serde_json::Number::from_i128(*i).into(),
        Json::Number(JsonNumber::Real(s)) => {
            serde_json::from_str::<serde_json::Number>(s).ok().into()
        },
        Json::Text(s) => serde_json::Value::String(s.clone()),
        Json::Array(a) => serde_json::Value::Array(a.iter().map(json_to_value).collect()),
        Json::Object(o) => serde_json::Value::Object(
            o.iter().map(|(k, v)| (k.clone(), json_to_value(v))).collect(),
        ),
    }
}

/// Calls `serde_json::from_str` for a `serde_json::Value`. The result is the
/// document that `serde_json` reads from `text`, or `None` where it reports an
/// error.
#[verifier::external_body]
fn read_json(text: &str) -> (r: Option<Json>)
    ensures
        r is Some <==> parsed_json(text@) is Some,
        r matches Some(j) ==> parsed_json(text@) == Some(j@),
{
    match serde_json::from_str::<serde_json::Value>(text) {
        Ok(value) => Some(json_from_value(&value)),
        Err(_) => None,
    }
}

/// Calls `to_string` of `serde_json::Value`, which writes the document as
/// compact JSON.
#[verifier::external_body]
fn write_json(doc: &Json) -> (r: String)
    ensures
        r@ == json_text(doc@),
{
    json_to_value(doc).to_string()
}

/// Parses a JSON text.
pub fn parse_json(text: &str) -> (r: Option<Json>)
    ensures
        r is Some <==> parsed_json(text@) is Some,
        r matches Some(j) ==> parsed_json(text@) == Some(j@),
{
    read_json(text)
}

/// Writes a document as compact JSON text.
pub fn render_json(doc: &Json) -> (r: String)
    ensures
        r@ == json_text(doc@),
{
    write_json(doc)
}

} // verus!
