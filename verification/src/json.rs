//! JSON documents as plain values.
//!
//! The project file is JSON text. Reading and writing the text itself is left
//! to `serde_json`; this module holds the document as a value of the library,
//! so that the schema rules can be stated and proved over it.

use serde_json::Value;
use vstd::prelude::*;

verus! {

/// A JSON document.
///
/// Numbers come in three kinds: an unsigned integer, a negative integer, and
/// any other number, which is kept as its JSON text. The fields of an object
/// are kept in the order in which they are listed.
#[derive(Debug)]
pub enum Json {
    Null,
    Bool(bool),
    UInt(u64),
    NegInt(i64),
    Real(String),
    Text(String),
    Array(Vec<Json>),
    Object(Vec<(String, Json)>),
}

/// The mathematical content of a JSON document.
pub enum JsonDoc {
    Null,
    Bool(bool),
    UInt(u64),
    NegInt(i64),
    Real(Seq<char>),
    Text(Seq<char>),
    Array(Seq<JsonDoc>),
    Object(Seq<(Seq<char>, JsonDoc)>),
}

/// The content of a document, item by item and field by field.
pub open spec fn json_doc(json: Json) -> JsonDoc
    decreases json,
{
    match json {
        Json::Null => JsonDoc::Null,
        Json::Bool(b) => JsonDoc::Bool(b),
        Json::UInt(n) => JsonDoc::UInt(n),
        Json::NegInt(n) => JsonDoc::NegInt(n),
        Json::Real(text) => JsonDoc::Real(text@),
        Json::Text(text) => JsonDoc::Text(text@),
        Json::Array(items) => JsonDoc::Array(
            Seq::new(
                items@.len(),
                |i: int|
                    if 0 <= i < items@.len() {
                        json_doc(items@[i])
                    } else {
                        JsonDoc::Null
                    },
            ),
        ),
        Json::Object(fields) => JsonDoc::Object(
            Seq::new(
                fields@.len(),
                |i: int|
                    if 0 <= i < fields@.len() {
                        (fields@[i].0@, json_doc(fields@[i].1))
                    } else {
                        (Seq::empty(), JsonDoc::Null)
                    },
            ),
        ),
    }
}

impl View for Json {
    type V = JsonDoc;

    open spec fn view(&self) -> JsonDoc {
        json_doc(*self)
    }
}

/// The views of the items of an array.
pub open spec fn items_view(items: Seq<Json>) -> Seq<JsonDoc> {
    Seq::new(items.len(), |i: int| items[i]@)
}

/// The views of the fields of an object.
pub open spec fn fields_view(fields: Seq<(String, Json)>) -> Seq<(Seq<char>, JsonDoc)> {
    Seq::new(fields.len(), |i: int| (fields[i].0@, fields[i].1@))
}

/// The view of an array is the array of the views of its items.
pub proof fn lemma_array_view(items: Vec<Json>)
    ensures
        Json::Array(items)@ == JsonDoc::Array(items_view(items@)),
{
    assert(Json::Array(items)@->Array_0 =~= items_view(items@));
}

/// The view of an object lists the views of its fields.
pub proof fn lemma_object_view(fields: Vec<(String, Json)>)
    ensures
        Json::Object(fields)@ == JsonDoc::Object(fields_view(fields@)),
{
    assert(Json::Object(fields)@->Object_0 =~= fields_view(fields@));
}

/// `i` is the place of the first field called `name`.
pub open spec fn field_at(fields: Seq<(Seq<char>, JsonDoc)>, name: Seq<char>, i: int) -> bool {
    &&& 0 <= i < fields.len()
    &&& fields[i].0 == name
    &&& forall|j: int| 0 <= j < i ==> (#[trigger] fields[j]).0 != name
}

/// The value of the first field called `name`, if there is one.
pub open spec fn find_field(fields: Seq<(Seq<char>, JsonDoc)>, name: Seq<char>) -> Option<
    JsonDoc,
> {
    if exists|i: int| field_at(fields, name, i) {
        Some(fields[choose|i: int| field_at(fields, name, i)].1)
    } else {
        None
    }
}

/// The first field called `name` is found at its place.
pub proof fn lemma_find_field(fields: Seq<(Seq<char>, JsonDoc)>, name: Seq<char>, i: int)
    requires
        field_at(fields, name, i),
    ensures
        find_field(fields, name) == Some(fields[i].1),
{
    let found = choose|k: int| field_at(fields, name, k);
    if found < i {
        assert(fields[found].0 != name);
    }
    if i < found {
        assert(fields[i].0 != name);
    }
}

impl JsonDoc {
    /// The value of the field `name` of an object.
    pub open spec fn field(self, name: Seq<char>) -> Option<JsonDoc> {
        match self {
            JsonDoc::Object(fields) => find_field(fields, name),
            _ => None,
        }
    }

    pub open spec fn as_text(self) -> Option<Seq<char>> {
        match self {
            JsonDoc::Text(text) => Some(text),
            _ => None,
        }
    }

    pub open spec fn as_bool(self) -> Option<bool> {
        match self {
            JsonDoc::Bool(b) => Some(b),
            _ => None,
        }
    }

    /// The number, where the document is an unsigned integer of at most
    /// `max`.
    pub open spec fn as_uint(self, max: u64) -> Option<u64> {
        match self {
            JsonDoc::UInt(n) => if n <= max {
                Some(n)
            } else {
                None
            },
            _ => None,
        }
    }

    pub open spec fn as_array(self) -> Option<Seq<JsonDoc>> {
        match self {
            JsonDoc::Array(items) => Some(items),
            _ => None,
        }
    }

    pub open spec fn as_object(self) -> Option<Seq<(Seq<char>, JsonDoc)>> {
        match self {
            JsonDoc::Object(fields) => Some(fields),
            _ => None,
        }
    }
}

impl Json {
    pub fn as_text(&self) -> (text: Option<&String>)
        ensures
            match text {
                Some(t) => self@.as_text() == Some(t@),
                None => self@.as_text().is_none(),
            },
    {
        match self {
            Json::Text(text) => Some(text),
            _ => None,
        }
    }

    pub fn as_bool(&self) -> (value: Option<bool>)
        ensures
            value == self@.as_bool(),
    {
        match self {
            Json::Bool(b) => Some(*b),
            _ => None,
        }
    }

    /// The number, where the document is an unsigned integer of at most
    /// `max`.
    pub fn as_uint(&self, max: u64) -> (value: Option<u64>)
        ensures
            value == self@.as_uint(max),
    {
        match self {
            Json::UInt(n) => if *n <= max {
                Some(*n)
            } else {
                None
            },
            _ => None,
        }
    }

    pub fn as_array(&self) -> (items: Option<&Vec<Json>>)
        ensures
            match items {
                Some(list) => self@.as_array() == Some(items_view(list@)),
                None => self@.as_array().is_none(),
            },
    {
        match self {
            Json::Array(items) => {
                proof {
                    lemma_array_view(*items);
                }
                Some(items)
            },
            _ => None,
        }
    }

    pub fn as_object(&self) -> (fields: Option<&Vec<(String, Json)>>)
        ensures
            match fields {
                Some(list) => self@.as_object() == Some(fields_view(list@)),
                None => self@.as_object().is_none(),
            },
    {
        match self {
            Json::Object(fields) => {
                proof {
                    lemma_object_view(*fields);
                }
                Some(fields)
            },
            _ => None,
        }
    }

    /// The value of the first field called `name`, where the document is an
    /// object that has one.
    pub fn field(&self, name: &str) -> (value: Option<&Json>)
        ensures
            match value {
                Some(v) => self@.field(name@) == Some(v@),
                None => self@.field(name@).is_none(),
            },
    {
        match self.as_object() {
            Some(fields) => {
                let wanted = name.to_owned();
                let mut i: usize = 0;
                while i < fields.len()
                    invariant
                        i <= fields.len(),
                        wanted@ == name@,
                        self@.as_object() == Some(fields_view(fields@)),
                        forall|j: int| 0 <= j < i ==> (#[trigger] fields_view(fields@)[j]).0 != name@,
                    decreases fields.len() - i,
                {
                    if fields[i].0 == wanted {
                        proof {
                            assert(field_at(fields_view(fields@), name@, i as int));
                            lemma_find_field(fields_view(fields@), name@, i as int);
                        }
                        return Some(&fields[i].1);
                    }
                    i += 1;
                }
                proof {
                    assert forall|k: int| !field_at(fields_view(fields@), name@, k) by {
                        if 0 <= k < fields.len() {
                            assert(fields_view(fields@)[k].0 != name@);
                        }
                    }
                }
                None
            },
            None => None,
        }
    }
}

/// The document that `serde_json` reads from a text, or `None` where the text
/// is not one JSON document.
pub uninterp spec fn json_parse(text: Seq<char>) -> Option<JsonDoc>;

/// The text that `serde_json` writes for a document, indented.
pub uninterp spec fn json_render(doc: JsonDoc) -> Seq<char>;

/// `serde_json::Value`, the document type of `serde_json`. Nothing is known
/// of its contents here; it is only handed from one call to the next.
#[verifier::external_type_specification]
#[verifier::external_body]
pub struct ExValue(Value);

/// Copies a `serde_json::Value` into a `Json`, variant by variant. A number
/// becomes `UInt` where `Number::as_u64` gives a value, else `NegInt` where
/// `Number::as_i64` does, else `Real` with the number's text.
#[verifier::external_body]
fn json_from_value(value: &Value) -> Json {
    match value {
        Value::Null => Json::Null,
        Value::Bool(b) => Json::Bool(*b),
        Value::Number(n) => match (n.as_u64(), n.as_i64()) {
            (Some(u), _) => Json::UInt(u),
            (None, Some(i)) => Json::NegInt(i),
            (None, None) => Json::Real(n.to_string()),
        },
        Value::String(s) => Json::Text(s.clone()),
        Value::Array(a) => Json::Array(a.iter().map(json_from_value).collect()),
        Value::Object(m) => Json::Object(
            m.iter().map(|(k, v)| (k.clone(), json_from_value(v))).collect(),
        ),
    }
}

/// Copies a `Json` into a `serde_json::Value`, variant by variant. A `Real`
/// whose text `serde_json` does not read as a number becomes `Value::Null`.
#[verifier::external_body]
fn value_from_json(doc: &Json) -> Value {
    match doc {
        Json::Null => Value::Null,
        Json::Bool(b) => Value::Bool(*b),
        Json::UInt(n) => Value::from(*n),
        Json::NegInt(n) => Value::from(*n),
        Json::Real(t) => t.parse().map_or(Value::Null, Value::Number),
        Json::Text(t) => Value::String(t.clone()),
        Json::Array(a) => Value::Array(a.iter().map(value_from_json).collect()),
        Json::Object(m) => Value::Object(
            m.iter().map(|(k, v)| (k.clone(), value_from_json(v))).collect(),
        ),
    }
}

/// `serde_json::from_str` at the type `serde_json::Value`, the result copied
/// into a `Json`. The contract names the document that is read; it claims no
/// more than that one text always reads as the same document.
#[verifier::external_body]
pub(crate) fn parse_json(text: &str) -> (doc: Option<Json>)
    ensures
        match doc {
            Some(d) => json_parse(text@) == Some(d@),
            None => json_parse(text@).is_none(),
        },
{
    match serde_json::from_str::<Value>(text) {
        Ok(value) => Some(json_from_value(&value)),
        Err(_) => None,
    }
}

/// `serde_json::to_string_pretty` on the `serde_json::Value` that holds the
/// document. The contract names the text that is written. Writing a `Value`
/// into a string has no failing case in `serde_json`.
#[verifier::external_body]
pub(crate) fn render_json(doc: &Json) -> (text: String)
    ensures
        text@ == json_render(doc@),
{
    serde_json::to_string_pretty(&value_from_json(doc)).unwrap_or_default()
}

} // verus!
